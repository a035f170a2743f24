//! Acknowledgement watermarks, checkpoints, and recovery and reclamation that go by them.
use vstd::prelude::*;

use crate::error::AeonError;
use crate::name_map::NameMap;
use crate::pipeline::metrics::PipelineMetrics;
use crate::text::same_text;

verus! {

/// The highest sequence number that each sink has acknowledged.
pub struct AckSeqTracker {
    acks: NameMap<u64>,
}

/// Whether `m` is the least of the values of a map.
pub open spec fn is_least(acks: Map<Seq<char>, u64>, m: u64) -> bool {
    &&& exists|k: Seq<char>| #[trigger] acks.contains_key(k) && acks[k] == m
    &&& forall|k: Seq<char>| #[trigger] acks.contains_key(k) ==> m <= acks[k]
}

/// The watermarks after a sink has acknowledged a sequence number: a watermark never falls.
pub open spec fn acked(acks: Map<Seq<char>, u64>, sink: Seq<char>, seq: u64) -> Map<
    Seq<char>,
    u64,
> {
    acks.insert(
        sink,
        if acks.contains_key(sink) && acks[sink] > seq {
            acks[sink]
        } else {
            seq
        },
    )
}

impl View for AckSeqTracker {
    type V = Map<Seq<char>, u64>;

    closed spec fn view(&self) -> Map<Seq<char>, u64> {
        self.acks@
    }
}

impl AckSeqTracker {
    pub closed spec fn wf(&self) -> bool {
        self.acks.wf()
    }

    pub fn new() -> (r: Self)
        ensures
            r.wf(),
            r@ == Map::<Seq<char>, u64>::empty(),
    {
        AckSeqTracker { acks: NameMap::new() }
    }

    /// Makes a sink known, at zero. A sink that is known keeps its watermark.
    pub fn register_sink(&mut self, sink: &str)
        requires
            old(self).wf(),
        ensures
            final(self).wf(),
            final(self)@ == (if old(self)@.contains_key(sink@) {
                old(self)@
            } else {
                old(self)@.insert(sink@, 0)
            }),
    {
        if !self.acks.contains(sink) {
            self.acks.insert(sink.to_owned(), 0);
        }
    }

    /// Raises a sink's watermark to `seq` if it stands lower.
    pub fn record_ack(&mut self, sink: &str, seq: u64)
        requires
            old(self).wf(),
        ensures
            final(self).wf(),
            final(self)@ == acked(old(self)@, sink@, seq),
    {
        let higher: u64 = match self.acks.get(sink) {
            Some(known) => if *known > seq {
                *known
            } else {
                seq
            },
            None => seq,
        };
        self.acks.insert(sink.to_owned(), higher);
    }

    /// The sequence number up to which every sink has acknowledged.
    pub fn min_across_sinks(&self) -> (r: Option<u64>)
        requires
            self.wf(),
        ensures
            match r {
                Some(m) => is_least(self@, m),
                None => self@ == Map::<Seq<char>, u64>::empty(),
            },
    {
        proof {
            self.acks.lemma_names();
        }
        let n = self.acks.len();
        if n == 0 {
            assert(self@ =~= Map::<Seq<char>, u64>::empty()) by {
                assert(self@.dom() =~= Set::<Seq<char>>::empty());
            }
            return None;
        }
        let ghost names = self.acks.names_in_order();
        let first = self.acks.at(0);
        let mut least: u64 = *first.1;
        let ghost mut at: Seq<char> = first.0@;
        let mut i: usize = 1;
        while i < n
            invariant
                self.wf(),
                names == self.acks.names_in_order(),
                n == names.len(),
                1 <= i <= n,
                self@.contains_key(at),
                self@[at] == least,
                forall|j: int| 0 <= j < i ==> least <= self@[#[trigger] names[j]],
            decreases n - i,
        {
            let e = self.acks.at(i);
            if *e.1 < least {
                least = *e.1;
                proof {
                    at = e.0@;
                }
            }
            i += 1;
        }
        proof {
            assert forall|k: Seq<char>| #[trigger] self@.contains_key(k) implies least
                <= self@[k] by {
                assert(names.to_set().contains(k));
                let j = choose|j: int| 0 <= j < names.len() && names[j] == k;
                assert(least <= self@[names[j]]);
            }
        }
        Some(least)
    }

    /// The watermark of one sink.
    pub fn ack_of(&self, sink: &str) -> (r: Option<u64>)
        requires
            self.wf(),
        ensures
            r == (if self@.contains_key(sink@) {
                Some(self@[sink@])
            } else {
                None
            }),
    {
        match self.acks.get(sink) {
            Some(v) => Some(*v),
            None => None,
        }
    }

    /// All watermarks.
    pub fn snapshot(&self) -> (r: NameMap<u64>)
        requires
            self.wf(),
        ensures
            r.wf(),
            r@ == self@,
    {
        self.acks.duplicate()
    }
}

/// A watermark, once reached, is kept by every later acknowledgement of any sink, and so the
/// sequence number up to which every sink has acknowledged never falls.
pub proof fn law_watermarks_never_fall(
    acks: Map<Seq<char>, u64>,
    sink: Seq<char>,
    seq: u64,
    before: u64,
    after: u64,
)
    requires
        acks.contains_key(sink),
        is_least(acks, before),
        is_least(acked(acks, sink, seq), after),
    ensures
        forall|k: Seq<char>| #[trigger]
            acks.contains_key(k) ==> acked(acks, sink, seq).contains_key(k) && acks[k] <= acked(
                acks,
                sink,
                seq,
            )[k],
        before <= after,
{
    let now = acked(acks, sink, seq);
    let k = choose|k: Seq<char>| #[trigger] now.contains_key(k) && now[k] == after;
    assert(acks.contains_key(k));
}

/// What a checkpoint says of a pipeline's progress.
pub struct CheckpointRecord {
    /// Assigned by the store that the record is appended to; zero before.
    pub checkpoint_id: u64,
    /// The offset to resume from, for each partition.
    pub source_offsets: Vec<(u16, i64)>,
    pub pending_event_ids: Vec<u128>,
    pub delivered_count: u64,
    pub failed_count: u64,
    pub per_sink_ack_seq: NameMap<u64>,
}

/// What the delivery ledger contributes to a checkpoint.
pub struct LedgerSnapshot {
    pub offsets: Vec<(u16, i64)>,
    pub pending: Vec<u128>,
}

/// Makes the checkpoint of a window, where a store for checkpoints is present. What the store
/// answers goes to `checkpoint_answered`.
pub fn write_checkpoint(
    has_writer: bool,
    ledger: Option<LedgerSnapshot>,
    delivered: u64,
    failed: u64,
    ack_tracker: Option<&AckSeqTracker>,
) -> (r: Option<CheckpointRecord>)
    requires
        ack_tracker is Some ==> ack_tracker->0.wf(),
    ensures
        r is Some == has_writer,
        r is Some ==> {
            &&& r->0.checkpoint_id == 0
            &&& r->0.delivered_count == delivered
            &&& r->0.failed_count == failed
            &&& match ledger {
                Some(l) => r->0.source_offsets == l.offsets && r->0.pending_event_ids == l.pending,
                None => r->0.source_offsets@.len() == 0 && r->0.pending_event_ids@.len() == 0,
            }
            &&& r->0.per_sink_ack_seq.wf()
            &&& r->0.per_sink_ack_seq@ == (match ack_tracker {
                Some(t) => t@,
                None => Map::<Seq<char>, u64>::empty(),
            })
        },
{
    if !has_writer {
        return None;
    }
    let (source_offsets, pending_event_ids) = match ledger {
        Some(l) => (l.offsets, l.pending),
        None => (Vec::new(), Vec::new()),
    };
    let per_sink_ack_seq = match ack_tracker {
        Some(t) => t.snapshot(),
        None => NameMap::new(),
    };
    Some(
        CheckpointRecord {
            checkpoint_id: 0,
            source_offsets,
            pending_event_ids,
            delivered_count: delivered,
            failed_count: failed,
            per_sink_ack_seq,
        },
    )
}

/// Takes note of what the store answered to a checkpoint: one that it took counts as written, and
/// the window starts anew. One that it refused does neither, so that the next one covers what this
/// one did. Without a store there is nothing to take note of.
pub fn checkpoint_answered(
    has_writer: bool,
    answer: &Result<(), AeonError>,
    metrics: &mut PipelineMetrics,
    delivered: &mut u64,
    failed: &mut u64,
)
    ensures
        if has_writer && answer is Ok {
            &&& *final(metrics) == PipelineMetrics {
                checkpoints_written: old(metrics).checkpoints_written.wrapping_add(1),
                ..*old(metrics)
            }
            &&& *final(delivered) == 0
            &&& *final(failed) == 0
        } else {
            &&& *final(metrics) == *old(metrics)
            &&& *final(delivered) == *old(delivered)
            &&& *final(failed) == *old(failed)
        },
{
    if has_writer && answer.is_ok() {
        metrics.checkpoints_written = metrics.checkpoints_written.wrapping_add(1);
        *delivered = 0;
        *failed = 0;
    }
}

/// Where a source resumes.
pub struct RecoveryPlan {
    pub source_checkpoint_id: u64,
    /// Where pull sources seek to, for each partition.
    pub pull_seek_offsets: Vec<(u16, i64)>,
    /// The sequence number from which the body store is replayed.
    pub l2_replay_start_seq: u64,
}

/// Derives the recovery plan from what reading the last checkpoint gave: no plan without a
/// store or where the read failed; the plan of a fresh start where no checkpoint was written;
/// otherwise the checkpoint's offsets, and a replay from where every sink had acknowledged.
pub fn load_recovery_plan<E>(
    read_last: Option<Result<Option<CheckpointRecord>, E>>,
) -> (r: Option<RecoveryPlan>)
    requires
        match read_last {
            Some(Ok(Some(rec))) => rec.per_sink_ack_seq.wf(),
            _ => true,
        },
    ensures
        match read_last {
            None => r is None,
            Some(Err(_)) => r is None,
            Some(Ok(None)) => r is Some && r->0.source_checkpoint_id == 0
                && r->0.pull_seek_offsets@.len() == 0 && r->0.l2_replay_start_seq == 0,
            Some(Ok(Some(rec))) => {
                &&& r is Some
                &&& r->0.source_checkpoint_id == rec.checkpoint_id
                &&& r->0.pull_seek_offsets == rec.source_offsets
                &&& (rec.per_sink_ack_seq@ == Map::<Seq<char>, u64>::empty()
                    ==> r->0.l2_replay_start_seq == 0)
                &&& (rec.per_sink_ack_seq@ != Map::<Seq<char>, u64>::empty() ==> is_least(
                    rec.per_sink_ack_seq@,
                    r->0.l2_replay_start_seq,
                ))
            },
        },
{
    match read_last {
        None => None,
        Some(Err(_)) => None,
        Some(Ok(None)) => Some(
            RecoveryPlan {
                source_checkpoint_id: 0,
                pull_seek_offsets: Vec::new(),
                l2_replay_start_seq: 0,
            },
        ),
        Some(Ok(Some(rec))) => {
            let tracker = AckSeqTracker { acks: rec.per_sink_ack_seq };
            let start: u64 = match tracker.min_across_sinks() {
                Some(m) => m,
                None => 0,
            };
            Some(
                RecoveryPlan {
                    source_checkpoint_id: rec.checkpoint_id,
                    pull_seek_offsets: rec.source_offsets,
                    l2_replay_start_seq: start,
                },
            )
        },
    }
}

/// A sweep of the body stores: everything up to a sequence number, in these partitions.
pub struct GcSweep {
    pub up_to: u64,
    pub partitions: Vec<u16>,
}

/// The partitions that a registry holds for a pipeline, in the registry's order.
pub open spec fn partitions_of(keys: Seq<(String, u16)>, pipeline: Seq<char>) -> Seq<u16>
    decreases keys.len(),
{
    if keys.len() == 0 {
        seq![]
    } else {
        let rest = partitions_of(keys.drop_last(), pipeline);
        if keys.last().0@ == pipeline {
            rest.push(keys.last().1)
        } else {
            rest
        }
    }
}

/// Decides which body stores to sweep, and how far: those of this pipeline, up to where every
/// sink has acknowledged. Nothing is swept without a registry, without watermarks, or before
/// every sink has acknowledged something.
pub fn eo2_gc_sweep(
    registry: Option<&Vec<(String, u16)>>,
    pipeline_name: &str,
    tracker: Option<&AckSeqTracker>,
) -> (r: Option<GcSweep>)
    requires
        tracker is Some ==> tracker->0.wf(),
    ensures
        match r {
            Some(sweep) => {
                &&& registry is Some
                &&& tracker is Some
                &&& is_least(tracker->0@, sweep.up_to)
                &&& sweep.up_to > 0
                &&& sweep.partitions@ == partitions_of(registry->0@, pipeline_name@)
            },
            None => registry is None || tracker is None || tracker->0@ == Map::<
                Seq<char>,
                u64,
            >::empty() || is_least(tracker->0@, 0),
        },
{
    let keys = match registry {
        Some(k) => k,
        None => {
            return None;
        },
    };
    let tracker = match tracker {
        Some(t) => t,
        None => {
            return None;
        },
    };
    let up_to: u64 = match tracker.min_across_sinks() {
        Some(m) => m,
        None => {
            return None;
        },
    };
    if up_to == 0 {
        return None;
    }
    let mut partitions: Vec<u16> = Vec::new();
    let mut i: usize = 0;
    while i < keys.len()
        invariant
            i <= keys@.len(),
            partitions@ == partitions_of(keys@.take(i as int), pipeline_name@),
        decreases keys@.len() - i,
    {
        proof {
            assert(keys@.take(i + 1).drop_last() =~= keys@.take(i as int));
        }
        if same_text(keys[i].0.as_str(), pipeline_name) {
            partitions.push(keys[i].1);
        }
        i += 1;
    }
    proof {
        assert(keys@.take(keys@.len() as int) =~= keys@);
    }
    Some(GcSweep { up_to, partitions })
}

/// What a sweep of one body store did.
pub struct GcOutcome {
    /// By how much the pipeline's byte budget changes, where it changes.
    pub budget_change: Option<i64>,
    /// How far the store's writer is ahead of the watermark.
    pub lag: u64,
}

/// Evaluates the sweep of one body store from its size before and after.
pub fn gc_outcome(bytes_before: u64, bytes_after: u64, next_seq: u64, up_to: u64) -> (r: GcOutcome)
    requires
        bytes_before <= i64::MAX,
    ensures
        r.budget_change == (if bytes_before > bytes_after {
            Some((bytes_after - bytes_before) as i64)
        } else {
            None
        }),
        r.lag == (if next_seq > up_to {
            next_seq - up_to
        } else {
            0
        }),
{
    let reclaimed: u64 = bytes_before.saturating_sub(bytes_after);
    let budget_change = if reclaimed > 0 {
        Some(-(reclaimed as i64))
    } else {
        None
    };
    GcOutcome { budget_change, lag: next_seq.saturating_sub(up_to) }
}

/// An acknowledgement raises the watermark of its sink to the number acknowledged, unless it stands
/// higher, and leaves those of all other sinks alone.
pub proof fn law_an_acknowledgement_raises_its_sink(
    acks: Map<Seq<char>, u64>,
    sink: Seq<char>,
    seq: u64,
    other: Seq<char>,
)
    ensures
        acked(acks, sink, seq).contains_key(sink),
        acked(acks, sink, seq)[sink] >= seq,
        acks.contains_key(sink) ==> acked(acks, sink, seq)[sink] >= acks[sink],
        acked(acks, sink, seq)[sink] == seq || acks.contains_pair(
            sink,
            acked(acks, sink, seq)[sink],
        ),
        other != sink ==> (acked(acks, sink, seq).contains_key(other) <==> acks.contains_key(
            other,
        )),
        other != sink && acks.contains_key(other) ==> acked(acks, sink, seq)[other] == acks[other],
{
}

/// The least of the watermarks is one of them, and none is lower. There is at most one such number.
pub proof fn law_the_least_watermark_is_that_of_the_slowest_sink(
    acks: Map<Seq<char>, u64>,
    m: u64,
    other: u64,
    sink: Seq<char>,
)
    requires
        is_least(acks, m),
    ensures
        exists|k: Seq<char>| #[trigger] acks.contains_key(k) && acks[k] == m,
        acks.contains_key(sink) ==> m <= acks[sink],
        is_least(acks, other) ==> other == m,
{
    let k = choose|k: Seq<char>| #[trigger] acks.contains_key(k) && acks[k] == m;
    if is_least(acks, other) {
        let o = choose|o: Seq<char>| #[trigger] acks.contains_key(o) && acks[o] == other;
        assert(m <= acks[o] && other <= acks[k]);
    }
}

/// The partitions that are swept are exactly those that the registry holds for the pipeline.
pub proof fn law_a_sweep_reaches_the_pipelines_own(
    keys: Seq<(String, u16)>,
    pipeline: Seq<char>,
    p: u16,
)
    ensures
        partitions_of(keys, pipeline).contains(p) <==> exists|i: int|
            0 <= i < keys.len() && (#[trigger] keys[i]).0@ == pipeline && keys[i].1 == p,
    decreases keys.len(),
{
    if keys.len() > 0 {
        let rest = keys.drop_last();
        let all = partitions_of(keys, pipeline);
        let part = partitions_of(rest, pipeline);
        law_a_sweep_reaches_the_pipelines_own(rest, pipeline, p);
        if all.contains(p) {
            let w = choose|w: int| 0 <= w < all.len() && all[w] == p;
            if w < part.len() {
                assert(part[w] == p);
                let i = choose|i: int|
                    0 <= i < rest.len() && (#[trigger] rest[i]).0@ == pipeline && rest[i].1 == p;
                assert(keys[i] == rest[i]);
            } else {
                assert(keys[keys.len() - 1].1 == p);
            }
        }
        if exists|i: int| 0 <= i < keys.len() && (#[trigger] keys[i]).0@ == pipeline && keys[i].1
            == p {
            let i = choose|i: int|
                0 <= i < keys.len() && (#[trigger] keys[i]).0@ == pipeline && keys[i].1 == p;
            if i < rest.len() {
                assert(rest[i] == keys[i]);
                let w = choose|w: int| 0 <= w < part.len() && part[w] == p;
                assert(all[w] == p);
            } else {
                assert(all[all.len() - 1] == p);
            }
        }
    }
}

/// A sweep goes through the partitions in the order of the registry, each entry once.
pub proof fn law_a_sweep_keeps_the_order(
    a: Seq<(String, u16)>,
    b: Seq<(String, u16)>,
    pipeline: Seq<char>,
)
    ensures
        partitions_of(a + b, pipeline) == partitions_of(a, pipeline) + partitions_of(b, pipeline),
        partitions_of(a, pipeline).len() <= a.len(),
    decreases b.len(), a.len(),
{
    if a.len() > 0 && b.len() == 0 {
        law_a_sweep_keeps_the_order(a.drop_last(), b, pipeline);
    }
    if b.len() == 0 {
        assert(a + b =~= a);
        assert(partitions_of(a, pipeline) + partitions_of(b, pipeline) =~= partitions_of(
            a,
            pipeline,
        ));
    } else {
        assert((a + b).drop_last() =~= a + b.drop_last());
        law_a_sweep_keeps_the_order(a, b.drop_last(), pipeline);
        assert(partitions_of(a + b, pipeline) =~= partitions_of(a, pipeline) + partitions_of(
            b,
            pipeline,
        ));
    }
}

} // verus!
