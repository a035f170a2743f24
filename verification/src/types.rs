//! Events, outputs and the enumerations that pipelines are declared with.
use vstd::prelude::*;

verus! {

/// One record read from a source.
#[derive(Debug, Clone)]
pub struct Event {
    /// The event's UUID as a number.
    pub id: u128,
    pub timestamp: i64,
    pub source: String,
    pub partition: u16,
    pub payload: Vec<u8>,
    pub metadata: Vec<(String, String)>,
    pub source_ts: Option<i64>,
    pub source_offset: Option<i64>,
    pub l2_seq: Option<u64>,
}

impl Event {
    pub fn new(id: u128, timestamp: i64, source: String, partition: u16, payload: Vec<u8>) -> (r:
        Self)
        ensures
            r.id == id,
            r.timestamp == timestamp,
            r.source == source,
            r.partition == partition,
            r.payload == payload,
            r.metadata@.len() == 0,
            r.source_ts is None,
            r.source_offset is None,
            r.l2_seq is None,
    {
        Event {
            id,
            timestamp,
            source,
            partition,
            payload,
            metadata: Vec::new(),
            source_ts: None,
            source_offset: None,
            l2_seq: None,
        }
    }

    /// Whether two events hold the same.
    pub open spec fn same_as(&self, other: Event) -> bool {
        &&& self.id == other.id
        &&& self.timestamp == other.timestamp
        &&& self.source@ == other.source@
        &&& self.partition == other.partition
        &&& self.payload@ == other.payload@
        &&& same_pairs(self.metadata@, other.metadata@)
        &&& self.source_ts == other.source_ts
        &&& self.source_offset == other.source_offset
        &&& self.l2_seq == other.l2_seq
    }

    /// A second event that holds the same.
    pub fn duplicate(&self) -> (r: Self)
        ensures
            r.same_as(*self),
    {
        Event {
            id: self.id,
            timestamp: self.timestamp,
            source: self.source.clone(),
            partition: self.partition,
            payload: self.payload.clone(),
            metadata: copy_pairs(&self.metadata),
            source_ts: self.source_ts,
            source_offset: self.source_offset,
            l2_seq: self.l2_seq,
        }
    }
}

/// One record on its way to a sink.
#[derive(Debug, Clone)]
pub struct Output {
    pub destination: String,
    pub key: Option<Vec<u8>>,
    pub payload: Vec<u8>,
    pub headers: Vec<(String, String)>,
    pub source_ts: Option<i64>,
    pub source_event_id: Option<u128>,
    pub source_partition: Option<u16>,
    pub source_offset: Option<i64>,
    pub l2_seq: Option<u64>,
}

/// Whether two lists of names and values hold the same.
pub open spec fn same_pairs(a: Seq<(String, String)>, b: Seq<(String, String)>) -> bool {
    &&& a.len() == b.len()
    &&& forall|i: int|
        0 <= i < a.len() ==> (#[trigger] a[i]).0@ == b[i].0@ && a[i].1@ == b[i].1@
}

fn copy_pairs(pairs: &Vec<(String, String)>) -> (r: Vec<(String, String)>)
    ensures
        same_pairs(r@, pairs@),
{
    let mut out: Vec<(String, String)> = Vec::new();
    let mut i: usize = 0;
    while i < pairs.len()
        invariant
            i <= pairs@.len(),
            out@.len() == i,
            forall|j: int|
                0 <= j < i ==> (#[trigger] out@[j]).0@ == pairs@[j].0@ && out@[j].1@
                    == pairs@[j].1@,
        decreases pairs@.len() - i,
    {
        out.push((pairs[i].0.clone(), pairs[i].1.clone()));
        i += 1;
    }
    out
}

impl Output {
    /// Whether two outputs hold the same.
    pub open spec fn same_as(&self, other: Output) -> bool {
        &&& self.destination@ == other.destination@
        &&& match (self.key, other.key) {
            (Some(a), Some(b)) => a@ == b@,
            (None, None) => true,
            _ => false,
        }
        &&& self.payload@ == other.payload@
        &&& same_pairs(self.headers@, other.headers@)
        &&& self.source_ts == other.source_ts
        &&& self.source_event_id == other.source_event_id
        &&& self.source_partition == other.source_partition
        &&& self.source_offset == other.source_offset
        &&& self.l2_seq == other.l2_seq
    }

    /// A second output that holds the same.
    pub fn duplicate(&self) -> (r: Self)
        ensures
            r.same_as(*self),
    {
        Output {
            destination: self.destination.clone(),
            key: match &self.key {
                Some(key) => Some(key.clone()),
                None => None,
            },
            payload: self.payload.clone(),
            headers: copy_pairs(&self.headers),
            source_ts: self.source_ts,
            source_event_id: self.source_event_id,
            source_partition: self.source_partition,
            source_offset: self.source_offset,
            l2_seq: self.l2_seq,
        }
    }
}

/// Whether some outputs are copies of others, one for one.
pub open spec fn output_copies(a: Seq<Output>, b: Seq<Output>) -> bool {
    &&& a.len() == b.len()
    &&& forall|i: int| 0 <= i < b.len() ==> (#[trigger] a[i]).same_as(b[i])
}

/// A second list of outputs that hold the same.
pub fn copy_outputs(outputs: &Vec<Output>) -> (r: Vec<Output>)
    ensures
        output_copies(r@, outputs@),
{
    let mut out: Vec<Output> = Vec::new();
    let mut i: usize = 0;
    while i < outputs.len()
        invariant
            i <= outputs@.len(),
            out@.len() == i,
            forall|j: int| 0 <= j < i ==> (#[trigger] out@[j]).same_as(outputs@[j]),
        decreases outputs@.len() - i,
    {
        out.push(outputs[i].duplicate());
        i += 1;
    }
    out
}

/// What a sink says of one batch: which outputs it confirmed, which it took without
/// confirming, and which failed and why.
#[derive(Debug)]
pub struct BatchResult {
    pub delivered: Vec<u128>,
    pub pending: Vec<u128>,
    pub failed: Vec<(u128, String)>,
}

impl BatchResult {
    pub fn has_failures(&self) -> (r: bool)
        ensures
            r == (self.failed@.len() > 0),
    {
        self.failed.len() > 0
    }

    pub fn all_delivered(ids: Vec<u128>) -> (r: Self)
        ensures
            r.delivered == ids,
            r.pending@.len() == 0,
            r.failed@.len() == 0,
    {
        BatchResult { delivered: ids, pending: Vec::new(), failed: Vec::new() }
    }

    pub fn all_pending(ids: Vec<u128>) -> (r: Self)
        ensures
            r.pending == ids,
            r.delivered@.len() == 0,
            r.failed@.len() == 0,
    {
        BatchResult { delivered: Vec::new(), pending: ids, failed: Vec::new() }
    }
}

/// How a source yields events.
#[derive(Debug, Clone, Copy, PartialEq, Eq, Structural)]
pub enum SourceKind {
    /// An empty batch means that the source has come to its end.
    Pull,
    /// Events arrive when they arrive; an empty batch is a lull.
    Push,
    /// The source is asked at intervals; an empty batch is a lull.
    Poll,
}

/// When a sink's acknowledgement is awaited.
#[derive(Debug, Clone, Copy, PartialEq, Eq, Structural)]
pub enum DeliveryStrategy {
    PerEvent,
    OrderedBatch,
    UnorderedBatch,
}

impl DeliveryStrategy {
    /// Whether writing a batch waits for its acknowledgement.
    pub open spec fn blocking(self) -> bool {
        self != DeliveryStrategy::UnorderedBatch
    }

    pub fn is_blocking(&self) -> (r: bool)
        ensures
            r == self.blocking(),
    {
        match self {
            DeliveryStrategy::UnorderedBatch => false,
            _ => true,
        }
    }
}

/// The delivery guarantee that a pipeline declares.
#[derive(Debug, Clone, Copy, PartialEq, Eq, Structural)]
pub enum DeliverySemantics {
    AtLeastOnce,
    ExactlyOnce,
}

/// What happens to the outputs of a batch that a sink could not deliver.
#[derive(Debug, Clone, Copy, PartialEq, Eq, Structural)]
pub enum BatchFailurePolicy {
    /// Write them again, a limited number of times.
    RetryFailed,
    /// Stop the pipeline.
    FailBatch,
    /// Count them and go on.
    SkipToDlq,
}

/// How much of a pipeline's progress is made durable.
#[derive(Debug, Clone, Copy, PartialEq, Eq, Structural)]
pub enum DurabilityMode {
    Off,
    PerEvent,
    OrderedBatch,
    UnorderedBatch,
}

impl DurabilityMode {
    /// Whether event bodies are written to the body store before the source is acknowledged.
    pub open spec fn wants_l2(self) -> bool {
        self != DurabilityMode::Off
    }

    /// The mode as text.
    pub open spec fn text(self) -> Seq<char> {
        match self {
            DurabilityMode::Off => "None"@,
            DurabilityMode::PerEvent => "PerEvent"@,
            DurabilityMode::OrderedBatch => "OrderedBatch"@,
            DurabilityMode::UnorderedBatch => "UnorderedBatch"@,
        }
    }

    pub fn as_text(&self) -> (r: &'static str)
        ensures
            r@ == self.text(),
    {
        match self {
            DurabilityMode::Off => "None",
            DurabilityMode::PerEvent => "PerEvent",
            DurabilityMode::OrderedBatch => "OrderedBatch",
            DurabilityMode::UnorderedBatch => "UnorderedBatch",
        }
    }

    pub fn requires_l2_body_store(&self) -> (r: bool)
        ensures
            r == self.wants_l2(),
    {
        match self {
            DurabilityMode::Off => false,
            _ => true,
        }
    }
}

/// Where checkpoints are kept.
#[derive(Debug, Clone, Copy, PartialEq, Eq, Structural)]
pub enum CheckpointBackend {
    Wal,
    StateStore,
    Off,
}

/// A copy of an event holds the same in every respect.
pub proof fn law_a_copied_event_is_whole(a: Event, b: Event)
    requires
        a.same_as(b),
    ensures
        a.id == b.id,
        a.timestamp == b.timestamp,
        a.source@ == b.source@,
        a.partition == b.partition,
        a.payload@ == b.payload@,
        a.source_ts == b.source_ts,
        a.source_offset == b.source_offset,
        a.l2_seq == b.l2_seq,
        a.metadata@.len() == b.metadata@.len(),
        forall|i: int|
            0 <= i < b.metadata@.len() ==> (#[trigger] a.metadata@[i]).0@ == b.metadata@[i].0@
                && a.metadata@[i].1@ == b.metadata@[i].1@,
{
}

/// A copy of an output holds the same in every respect.
pub proof fn law_a_copied_output_is_whole(a: Output, b: Output)
    requires
        a.same_as(b),
    ensures
        a.destination@ == b.destination@,
        a.key is Some <==> b.key is Some,
        a.key is Some ==> a.key->0@ == b.key->0@,
        a.payload@ == b.payload@,
        a.source_ts == b.source_ts,
        a.source_event_id == b.source_event_id,
        a.source_partition == b.source_partition,
        a.source_offset == b.source_offset,
        a.l2_seq == b.l2_seq,
        a.headers@.len() == b.headers@.len(),
        forall|i: int|
            0 <= i < b.headers@.len() ==> (#[trigger] a.headers@[i]).0@ == b.headers@[i].0@
                && a.headers@[i].1@ == b.headers@[i].1@,
{
}

/// Copies of outputs are as many, in the same order, and each holds the same.
pub proof fn law_copied_outputs_keep_their_order(a: Seq<Output>, b: Seq<Output>, i: int)
    requires
        output_copies(a, b),
    ensures
        a.len() == b.len(),
        0 <= i < b.len() ==> {
            &&& a[i].same_as(b[i])
            &&& a[i].payload@ == b[i].payload@
            &&& a[i].destination@ == b[i].destination@
            &&& a[i].source_event_id == b[i].source_event_id
            &&& a[i].key is Some == b[i].key is Some
            &&& a[i].key is Some ==> a[i].key->0@ == b[i].key->0@
        },
{
    if 0 <= i < b.len() {
        assert(a[i].same_as(b[i]));
    }
}

/// Only the strategy of unordered batches does not wait for delivery; only the mode without
/// durability does without the body store. Each mode has a name of its own.
pub proof fn law_modes_are_told_apart(s: DeliveryStrategy, a: DurabilityMode, b: DurabilityMode)
    ensures
        s.blocking() <==> (s == DeliveryStrategy::PerEvent || s == DeliveryStrategy::OrderedBatch),
        a.wants_l2() <==> (a == DurabilityMode::PerEvent || a == DurabilityMode::OrderedBatch || a
            == DurabilityMode::UnorderedBatch),
        a.text() == b.text() ==> a == b,
        a == DurabilityMode::Off ==> a.text() == "None"@,
        a == DurabilityMode::PerEvent ==> a.text() == "PerEvent"@,
        a == DurabilityMode::OrderedBatch ==> a.text() == "OrderedBatch"@,
        a == DurabilityMode::UnorderedBatch ==> a.text() == "UnorderedBatch"@,
{
    reveal_strlit("None");
    reveal_strlit("PerEvent");
    reveal_strlit("OrderedBatch");
    reveal_strlit("UnorderedBatch");
    assert("None"@.len() == 4 && "PerEvent"@.len() == 8);
    assert("OrderedBatch"@.len() == 12 && "UnorderedBatch"@.len() == 14);
}

} // verus!
