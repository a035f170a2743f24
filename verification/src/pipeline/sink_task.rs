//! The sink stage: what to track, acknowledge, flush, checkpoint and reclaim, and when.
use std::collections::HashMap;
use vstd::prelude::*;

use crate::error::AeonError;
use crate::pipeline::metrics::PipelineMetrics;
use crate::pipeline::recovery::{
    checkpoint_answered, write_checkpoint, AckSeqTracker, CheckpointRecord, LedgerSnapshot,
};
use crate::time::{elapsed_reaches, has_elapsed, Duration};
use crate::types::{BatchFailurePolicy, BatchResult, DeliveryStrategy, Output};

verus! {

broadcast use vstd::std_specs::hash::group_hash_axioms;

/// After how many flushes the checkpoint store is asked to return to its primary.
pub const RECOVERY_ATTEMPT_EVERY_N_FLUSHES: u32 = 16;

/// What the delivery ledger is told of an output before it is written.
#[derive(Debug, Clone, Copy, PartialEq, Eq, Structural)]
pub struct TrackedOutput {
    pub event_id: u128,
    pub partition: u16,
    pub offset: i64,
}

/// What the ledger is told of the outputs of a batch: those that know their event, in order,
/// with partition and offset zero where they do not know them.
pub open spec fn tracked_of(outputs: Seq<Output>) -> Seq<TrackedOutput>
    decreases outputs.len(),
{
    if outputs.len() == 0 {
        seq![]
    } else {
        let rest = tracked_of(outputs.drop_last());
        let o = outputs.last();
        match o.source_event_id {
            Some(event_id) => rest.push(
                TrackedOutput {
                    event_id,
                    partition: (match o.source_partition {
                        Some(p) => p,
                        None => 0,
                    }),
                    offset: (match o.source_offset {
                        Some(f) => f,
                        None => 0,
                    }),
                },
            ),
            None => rest,
        }
    }
}

/// The body-store sequence number of each event of a batch; where an event has several outputs,
/// that of the last one which has a number.
pub open spec fn l2_seqs_of(outputs: Seq<Output>) -> Map<u128, u64>
    decreases outputs.len(),
{
    if outputs.len() == 0 {
        Map::empty()
    } else {
        let rest = l2_seqs_of(outputs.drop_last());
        let o = outputs.last();
        match (o.source_event_id, o.l2_seq) {
            (Some(id), Some(seq)) => rest.insert(id, seq),
            _ => rest,
        }
    }
}

/// The highest sequence number among delivered events, zero where none has a number.
pub open spec fn highest_of(seqs: Map<u128, u64>, delivered: Seq<u128>) -> u64
    decreases delivered.len(),
{
    if delivered.len() == 0 {
        0
    } else {
        let rest = highest_of(seqs, delivered.drop_last());
        let id = delivered.last();
        if seqs.contains_key(id) && seqs[id] > rest {
            seqs[id]
        } else {
            rest
        }
    }
}

/// A batch that has been handed to the sink.
pub struct InFlight {
    pub count: u64,
    /// What the ledger is told before the batch is written; empty without a ledger.
    pub entries: Vec<TrackedOutput>,
    /// The sequence numbers of the batch's events; empty where acknowledgements are not followed.
    pub seqs: HashMap<u128, u64>,
}

/// What follows from a batch that was written.
pub struct WriteReport {
    /// The watermark to record for this sink, where it rises.
    pub advance: Option<u64>,
    /// Whether some outputs failed and the failure policy applies.
    pub has_failures: bool,
}

/// What to do after a batch, in this order.
#[derive(Debug, Clone, Copy, PartialEq, Eq, Structural)]
pub struct AfterBatch {
    /// Sweep the body stores.
    pub sweep: bool,
    /// Write a checkpoint.
    pub checkpoint: bool,
    /// Flush the sink.
    pub flush: bool,
}

/// What to do while no batch is waiting.
#[derive(Debug, Clone, Copy, PartialEq, Eq, Structural)]
pub struct IdleStep {
    /// Write a checkpoint.
    pub checkpoint: bool,
    /// Flush the sink.
    pub flush: bool,
}

/// The progress of a sink stage.
pub struct SinkTask {
    pub delivery_strategy: DeliveryStrategy,
    pub flush_interval: Duration,
    pub max_pending: usize,
    pub failure_policy: BatchFailurePolicy,
    pub has_ledger: bool,
    pub has_writer: bool,
    pub has_capacity: bool,
    pub tracks_acks: bool,
    /// The highest sequence number that this sink has acknowledged.
    pub max_acked_seq: u64,
    pub flushes_since_recovery_attempt: u32,
    /// The clock at the last flush, in nanoseconds.
    pub last_flush: u64,
    /// Outputs written since the last flush, where writing does not wait for delivery.
    pub pending_count: u64,
    /// Outputs that the sink took without confirming them, since the last flush.
    pub pending_ids: Vec<u128>,
    pub delivered_since_checkpoint: u64,
    pub failed_since_checkpoint: u64,
    pub acked_since_last_flush: u64,
    pub events_since_last_flush: u64,
}

impl SinkTask {
    pub open spec fn wf(&self) -> bool {
        self.flushes_since_recovery_attempt < RECOVERY_ATTEMPT_EVERY_N_FLUSHES
    }

    /// Whether `n` more outputs fit the counters.
    pub open spec fn room_for(&self, n: nat) -> bool {
        &&& self.pending_count + n <= u64::MAX
        &&& self.delivered_since_checkpoint + n <= u64::MAX
        &&& self.failed_since_checkpoint + n <= u64::MAX
        &&& self.acked_since_last_flush + n <= u64::MAX
        &&& self.events_since_last_flush + n <= u64::MAX
    }

    /// The outputs that wait for a flush, with nothing credited yet.
    pub open spec fn waiting(&self) -> Credit {
        Credit { sent: 0, waiting: self.pending_ids@.len() }
    }

    /// The same stage: what it was set up with has not changed.
    pub open spec fn same_setup(&self, other: &SinkTask) -> bool {
        &&& self.delivery_strategy == other.delivery_strategy
        &&& self.flush_interval == other.flush_interval
        &&& self.max_pending == other.max_pending
        &&& self.failure_policy == other.failure_policy
        &&& self.has_ledger == other.has_ledger
        &&& self.has_writer == other.has_writer
        &&& self.has_capacity == other.has_capacity
        &&& self.tracks_acks == other.tracks_acks
    }

    /// Whether `n` more outputs fit the counters.
    pub fn has_room(&self, n: u64) -> (r: bool)
        ensures
            r == self.room_for(n as nat),
    {
        let room: u64 = u64::MAX - n;
        self.pending_count <= room && self.delivered_since_checkpoint <= room
            && self.failed_since_checkpoint <= room && self.acked_since_last_flush <= room
            && self.events_since_last_flush <= room
    }

    /// A sink stage that starts at clock reading `now`.
    pub fn new(
        delivery_strategy: DeliveryStrategy,
        flush_interval: Duration,
        max_pending: usize,
        failure_policy: BatchFailurePolicy,
        has_ledger: bool,
        has_writer: bool,
        has_capacity: bool,
        tracks_acks: bool,
        now: u64,
    ) -> (r: Self)
        ensures
            r.wf(),
            r.delivery_strategy == delivery_strategy,
            r.flush_interval == flush_interval,
            r.max_pending == max_pending,
            r.failure_policy == failure_policy,
            r.has_ledger == has_ledger,
            r.has_writer == has_writer,
            r.has_capacity == has_capacity,
            r.tracks_acks == tracks_acks,
            r.max_acked_seq == 0,
            r.flushes_since_recovery_attempt == 0,
            r.last_flush == now,
            r.pending_count == 0,
            r.pending_ids@.len() == 0,
            r.delivered_since_checkpoint == 0,
            r.failed_since_checkpoint == 0,
            r.acked_since_last_flush == 0,
            r.events_since_last_flush == 0,
    {
        SinkTask {
            delivery_strategy,
            flush_interval,
            max_pending,
            failure_policy,
            has_ledger,
            has_writer,
            has_capacity,
            tracks_acks,
            max_acked_seq: 0,
            flushes_since_recovery_attempt: 0,
            last_flush: now,
            pending_count: 0,
            pending_ids: Vec::new(),
            delivered_since_checkpoint: 0,
            failed_since_checkpoint: 0,
            acked_since_last_flush: 0,
            events_since_last_flush: 0,
        }
    }

    /// Whether the outputs of a batch are kept until the sink has answered.
    pub fn keeps_outputs(&self) -> (r: bool)
        ensures
            r == (self.failure_policy == BatchFailurePolicy::RetryFailed),
    {
        match self.failure_policy {
            BatchFailurePolicy::RetryFailed => true,
            _ => false,
        }
    }

    /// Takes note of a batch before it is written.
    pub fn begin_batch(&self, outputs: &Vec<Output>) -> (r: InFlight)
        ensures
            r.count == outputs@.len(),
            r.entries@ == (if self.has_ledger {
                tracked_of(outputs@)
            } else {
                seq![]
            }),
            r.seqs@ == (if self.tracks_acks {
                l2_seqs_of(outputs@)
            } else {
                Map::empty()
            }),
    {
        let mut entries: Vec<TrackedOutput> = Vec::new();
        let mut seqs: HashMap<u128, u64> = HashMap::new();
        let mut i: usize = 0;
        while i < outputs.len()
            invariant
                i <= outputs@.len(),
                entries@ == (if self.has_ledger {
                    tracked_of(outputs@.take(i as int))
                } else {
                    seq![]
                }),
                seqs@ == (if self.tracks_acks {
                    l2_seqs_of(outputs@.take(i as int))
                } else {
                    Map::empty()
                }),
            decreases outputs@.len() - i,
        {
            proof {
                assert(outputs@.take(i + 1).drop_last() =~= outputs@.take(i as int));
            }
            let o = &outputs[i];
            if let Some(event_id) = o.source_event_id {
                if self.has_ledger {
                    let partition: u16 = match o.source_partition {
                        Some(p) => p,
                        None => 0,
                    };
                    let offset: i64 = match o.source_offset {
                        Some(f) => f,
                        None => 0,
                    };
                    entries.push(TrackedOutput { event_id, partition, offset });
                }
                if self.tracks_acks {
                    if let Some(seq) = o.l2_seq {
                        seqs.insert(event_id, seq);
                    }
                }
            }
            i += 1;
        }
        proof {
            assert(outputs@.take(outputs@.len() as int) =~= outputs@);
        }
        InFlight { count: outputs.len() as u64, entries, seqs }
    }

    /// Takes note of what the sink says of a batch. What was delivered counts as sent; what the
    /// sink took without confirming waits for the next flush; the watermark rises to the highest
    /// delivered sequence number, never falls.
    pub fn batch_written(
        &mut self,
        batch: &InFlight,
        result: &BatchResult,
        metrics: &mut PipelineMetrics,
    ) -> (r: WriteReport)
        requires
            old(self).wf(),
            old(self).room_for((result.delivered@.len() + batch.count) as nat),
        ensures
            final(self).wf(),
            final(self).same_setup(old(self)),
            ({
                let top = highest_of(batch.seqs@, result.delivered@);
                let rises = old(self).tracks_acks && top > old(self).max_acked_seq;
                &&& r.advance == (if rises {
                    Some(top)
                } else {
                    None
                })
                &&& final(self).max_acked_seq == (if rises {
                    top
                } else {
                    old(self).max_acked_seq
                })
            }),
            r.has_failures == (result.failed@.len() > 0),
            final(self).pending_ids@ == old(self).pending_ids@ + result.pending@,
            final(self).waiting().waiting == credit_step(
                old(self).waiting(),
                CreditEvent::Written {
                    delivered: result.delivered@.len(),
                    pending: result.pending@.len(),
                },
            ).waiting,
            final(metrics).outputs_sent == old(metrics).outputs_sent.wrapping_add(
                credit_step(
                    old(self).waiting(),
                    CreditEvent::Written {
                        delivered: result.delivered@.len(),
                        pending: result.pending@.len(),
                    },
                ).sent as u64,
            ),
            final(self).delivered_since_checkpoint == old(self).delivered_since_checkpoint
                + result.delivered@.len(),
            final(self).acked_since_last_flush == old(self).acked_since_last_flush
                + result.delivered@.len(),
            final(self).events_since_last_flush == old(self).events_since_last_flush + batch.count,
            final(self).failed_since_checkpoint == old(self).failed_since_checkpoint,
            final(self).pending_count == old(self).pending_count,
            final(self).last_flush == old(self).last_flush,
            final(self).flushes_since_recovery_attempt == old(self).flushes_since_recovery_attempt,
            *final(metrics) == (PipelineMetrics {
                outputs_sent: old(metrics).outputs_sent.wrapping_add(
                    result.delivered@.len() as u64,
                ),
                ..*old(metrics)
            }),
    {
        let mut top: u64 = 0;
        let mut i: usize = 0;
        while i < result.delivered.len()
            invariant
                i <= result.delivered@.len(),
                top == highest_of(batch.seqs@, result.delivered@.take(i as int)),
            decreases result.delivered@.len() - i,
        {
            proof {
                assert(result.delivered@.take(i + 1).drop_last() =~= result.delivered@.take(
                    i as int,
                ));
            }
            if let Some(seq) = batch.seqs.get(&result.delivered[i]) {
                if *seq > top {
                    top = *seq;
                }
            }
            i += 1;
        }
        proof {
            assert(result.delivered@.take(result.delivered@.len() as int) =~= result.delivered@);
        }
        let advance = if self.tracks_acks && top > self.max_acked_seq {
            self.max_acked_seq = top;
            Some(top)
        } else {
            None
        };
        let delivered: u64 = result.delivered.len() as u64;
        metrics.outputs_sent = metrics.outputs_sent.wrapping_add(delivered);
        self.delivered_since_checkpoint = self.delivered_since_checkpoint + delivered;
        self.acked_since_last_flush = self.acked_since_last_flush + delivered;
        self.events_since_last_flush = self.events_since_last_flush + batch.count;
        let ghost before = self.pending_ids@;
        let mut k: usize = 0;
        while k < result.pending.len()
            invariant
                k <= result.pending@.len(),
                self.pending_ids@ == before + result.pending@.take(k as int),
                self.wf(),
                self.same_setup(old(self)),
                self.max_acked_seq == (if advance is Some {
                    advance->0
                } else {
                    old(self).max_acked_seq
                }),
                self.delivered_since_checkpoint == old(self).delivered_since_checkpoint
                    + delivered,
                self.acked_since_last_flush == old(self).acked_since_last_flush + delivered,
                self.events_since_last_flush == old(self).events_since_last_flush + batch.count,
                self.failed_since_checkpoint == old(self).failed_since_checkpoint,
                self.pending_count == old(self).pending_count,
                self.last_flush == old(self).last_flush,
                self.flushes_since_recovery_attempt == old(self).flushes_since_recovery_attempt,
            decreases result.pending@.len() - k,
        {
            self.pending_ids.push(result.pending[k]);
            proof {
                assert(self.pending_ids@ =~= before + result.pending@.take(k + 1));
            }
            k += 1;
        }
        proof {
            assert(result.pending@.take(result.pending@.len() as int) =~= result.pending@);
        }
        WriteReport { advance, has_failures: result.has_failures() }
    }

    /// Takes note of outputs that failed, once the failure policy has been applied to them.
    pub fn failures_handled(&mut self, failed: u64)
        requires
            old(self).wf(),
            old(self).room_for(failed as nat),
        ensures
            final(self).wf(),
            *final(self) == (SinkTask {
                failed_since_checkpoint: (old(self).failed_since_checkpoint + failed) as u64,
                ..*old(self)
            }),
    {
        self.failed_since_checkpoint = self.failed_since_checkpoint + failed;
    }

    /// The interval between flushes: the tuned one where the stage tunes itself.
    pub open spec fn effective_interval(&self, tuned: Option<Duration>) -> Duration {
        match tuned {
            Some(t) => t,
            None => self.flush_interval,
        }
    }

    /// Whether a stage that waits for delivery owes a checkpoint.
    pub open spec fn checkpoint_due(&self, now: u64) -> bool {
        self.delivery_strategy.blocking() && self.delivered_since_checkpoint > 0
            && elapsed_reaches(self.last_flush, now, self.flush_interval)
    }

    /// Decides what to do after a batch of `count` outputs.
    pub fn after_batch(&mut self, count: u64, now: u64, tuned: Option<Duration>) -> (r: AfterBatch)
        requires
            old(self).wf(),
            old(self).room_for(count as nat),
        ensures
            final(self).wf(),
            *final(self) == (SinkTask {
                pending_count: (if old(self).delivery_strategy.blocking() {
                    old(self).pending_count
                } else {
                    (old(self).pending_count + count) as u64
                }),
                ..*old(self)
            }),
            r.sweep == (old(self).delivery_strategy.blocking() && old(self).has_capacity),
            r.checkpoint == old(self).checkpoint_due(now),
            r.flush == (!old(self).delivery_strategy.blocking() && (elapsed_reaches(
                old(self).last_flush,
                now,
                old(self).effective_interval(tuned),
            ) || old(self).pending_count + count >= old(self).max_pending)),
    {
        if self.delivery_strategy.is_blocking() {
            let due = self.delivered_since_checkpoint > 0 && has_elapsed(
                self.last_flush,
                now,
                self.flush_interval,
            );
            AfterBatch { sweep: self.has_capacity, checkpoint: due, flush: false }
        } else {
            self.pending_count = self.pending_count + count;
            let interval = match tuned {
                Some(t) => t,
                None => self.flush_interval,
            };
            let flush = has_elapsed(self.last_flush, now, interval) || self.pending_count
                >= self.max_pending as u64;
            AfterBatch { sweep: false, checkpoint: false, flush }
        }
    }

    /// Decides what to do while no batch is waiting.
    pub fn idle(&self, now: u64, tuned: Option<Duration>) -> (r: IdleStep)
        ensures
            r.checkpoint == self.checkpoint_due(now),
            r.flush == (!self.delivery_strategy.blocking() && self.pending_count > 0
                && elapsed_reaches(self.last_flush, now, self.effective_interval(tuned))),
    {
        if self.delivery_strategy.is_blocking() {
            let due = self.delivered_since_checkpoint > 0 && has_elapsed(
                self.last_flush,
                now,
                self.flush_interval,
            );
            IdleStep { checkpoint: due, flush: false }
        } else {
            let interval = match tuned {
                Some(t) => t,
                None => self.flush_interval,
            };
            IdleStep {
                checkpoint: false,
                flush: self.pending_count > 0 && has_elapsed(self.last_flush, now, interval),
            }
        }
    }

    /// What the tuner of the flush interval is told before a flush: how many outputs were
    /// written and how many acknowledged since the last one.
    pub fn tuner_feedback(&self) -> (r: (u64, u64))
        ensures
            r == (self.events_since_last_flush, self.acked_since_last_flush),
    {
        (self.events_since_last_flush, self.acked_since_last_flush)
    }

    /// Credits the outputs that a completed flush has delivered: they count as sent, and the
    /// ledger is told of those that are returned.
    pub fn credit_pending_on_flush(&mut self, metrics: &mut PipelineMetrics) -> (r: Vec<u128>)
        requires
            old(self).wf(),
            old(self).room_for(old(self).pending_ids@.len()),
        ensures
            final(self).wf(),
            final(self).same_setup(old(self)),
            r@ == old(self).pending_ids@,
            final(self).pending_ids@.len() == 0,
            final(self).waiting().waiting == credit_step(
                old(self).waiting(),
                CreditEvent::Flushed,
            ).waiting,
            final(metrics).outputs_sent == old(metrics).outputs_sent.wrapping_add(
                credit_step(old(self).waiting(), CreditEvent::Flushed).sent as u64,
            ),
            final(self).delivered_since_checkpoint == old(self).delivered_since_checkpoint
                + old(self).pending_ids@.len(),
            final(self).acked_since_last_flush == old(self).acked_since_last_flush
                + old(self).pending_ids@.len(),
            final(self).max_acked_seq == old(self).max_acked_seq,
            final(self).flushes_since_recovery_attempt == old(self).flushes_since_recovery_attempt,
            final(self).last_flush == old(self).last_flush,
            final(self).pending_count == old(self).pending_count,
            final(self).failed_since_checkpoint == old(self).failed_since_checkpoint,
            final(self).events_since_last_flush == old(self).events_since_last_flush,
            *final(metrics) == (PipelineMetrics {
                outputs_sent: old(metrics).outputs_sent.wrapping_add(
                    old(self).pending_ids@.len() as u64,
                ),
                ..*old(metrics)
            }),
    {
        let mut credited: Vec<u128> = Vec::new();
        let count: u64 = self.pending_ids.len() as u64;
        credited.append(&mut self.pending_ids);
        proof {
            assert(credited@ =~= old(self).pending_ids@);
        }
        metrics.outputs_sent = metrics.outputs_sent.wrapping_add(count);
        self.delivered_since_checkpoint = self.delivered_since_checkpoint + count;
        self.acked_since_last_flush = self.acked_since_last_flush + count;
        credited
    }

    /// Makes a checkpoint of what has happened since the last one, where a store for checkpoints
    /// is present.
    pub fn checkpoint(
        &self,
        ledger: Option<LedgerSnapshot>,
        tracker: Option<&AckSeqTracker>,
    ) -> (r: Option<CheckpointRecord>)
        requires
            tracker is Some ==> tracker->0.wf(),
        ensures
            checkpoint_of(*self, ledger, tracker, r),
    {
        write_checkpoint(
            self.has_writer,
            ledger,
            self.delivered_since_checkpoint,
            self.failed_since_checkpoint,
            tracker,
        )
    }

    /// Takes note of what the store answered to a checkpoint.
    pub fn checkpoint_answered(
        &mut self,
        answer: &Result<(), AeonError>,
        metrics: &mut PipelineMetrics,
    )
        requires
            old(self).wf(),
        ensures
            final(self).wf(),
            *final(self) == (if old(self).has_writer && answer is Ok {
                SinkTask {
                    delivered_since_checkpoint: 0,
                    failed_since_checkpoint: 0,
                    ..*old(self)
                }
            } else {
                *old(self)
            }),
            *final(metrics) == (if old(self).has_writer && answer is Ok {
                PipelineMetrics {
                    checkpoints_written: old(metrics).checkpoints_written.wrapping_add(1),
                    ..*old(metrics)
                }
            } else {
                *old(metrics)
            }),
    {
        checkpoint_answered(
            self.has_writer,
            answer,
            metrics,
            &mut self.delivered_since_checkpoint,
            &mut self.failed_since_checkpoint,
        );
    }

    /// Starts the interval of a stage that waits for delivery anew, after a checkpoint.
    pub fn checkpoint_done(&mut self, now: u64)
        requires
            old(self).wf(),
        ensures
            final(self).wf(),
            *final(self) == (SinkTask { last_flush: now, ..*old(self) }),
    {
        self.last_flush = now;
    }

    /// Closes a flush: the interval and its counters start anew. Says whether the checkpoint
    /// store is now to be asked to return to its primary, which comes with every sixteenth flush.
    pub fn flush_done(&mut self, now: u64) -> (r: bool)
        requires
            old(self).wf(),
        ensures
            final(self).wf(),
            r == (old(self).flushes_since_recovery_attempt + 1
                == RECOVERY_ATTEMPT_EVERY_N_FLUSHES),
            *final(self) == (SinkTask {
                flushes_since_recovery_attempt: (if r {
                    0
                } else {
                    (old(self).flushes_since_recovery_attempt + 1) as u32
                }),
                pending_count: 0,
                last_flush: now,
                acked_since_last_flush: 0,
                events_since_last_flush: 0,
                ..*old(self)
            }),
    {
        let flushes: u32 = self.flushes_since_recovery_attempt + 1;
        let recover = flushes >= RECOVERY_ATTEMPT_EVERY_N_FLUSHES;
        self.flushes_since_recovery_attempt = if recover {
            0
        } else {
            flushes
        };
        self.pending_count = 0;
        self.last_flush = now;
        self.acked_since_last_flush = 0;
        self.events_since_last_flush = 0;
        recover
    }

    /// Whether the last flush leaves something for a checkpoint.
    pub fn final_checkpoint_due(&self) -> (r: bool)
        ensures
            r == (self.delivered_since_checkpoint > 0 || self.failed_since_checkpoint > 0),
    {
        self.delivered_since_checkpoint > 0 || self.failed_since_checkpoint > 0
    }
}

/// Whether `r` is the checkpoint of what a task has counted since the last one. Without a store for
/// checkpoints there is none.
pub open spec fn checkpoint_of(
    task: SinkTask,
    ledger: Option<LedgerSnapshot>,
    tracker: Option<&AckSeqTracker>,
    r: Option<CheckpointRecord>,
) -> bool {
    &&& r is Some == task.has_writer
    &&& r is Some ==> {
        &&& r->0.checkpoint_id == 0
        &&& r->0.delivered_count == task.delivered_since_checkpoint
        &&& r->0.failed_count == task.failed_since_checkpoint
        &&& match ledger {
            Some(l) => r->0.source_offsets == l.offsets && r->0.pending_event_ids == l.pending,
            None => r->0.source_offsets@.len() == 0 && r->0.pending_event_ids@.len() == 0,
        }
        &&& r->0.per_sink_ack_seq.wf()
        &&& r->0.per_sink_ack_seq@ == (match tracker {
            Some(t) => t@,
            None => Map::<Seq<char>, u64>::empty(),
        })
    }
}

/// The shortest and the longest interval that a self-tuning stage may choose.
pub struct TunerBounds {
    pub start: Duration,
    pub min: Duration,
    pub max: Duration,
}

/// The bounds of the flush interval of a self-tuning stage. A stage tunes itself only where it
/// is set up to and a ledger says what was acknowledged.
pub fn tuner_bounds(
    adaptive: bool,
    has_ledger: bool,
    interval: Duration,
    min_divisor: u32,
    max_multiplier: u32,
) -> (r: Option<TunerBounds>)
    requires
        adaptive && has_ledger ==> {
            &&& min_divisor > 0
            &&& interval.wf()
            &&& interval.total_nanos() * max_multiplier < 1_000_000_000 * 0x1_0000_0000_0000_0000
        },
    ensures
        r is Some == (adaptive && has_ledger),
        r is Some ==> {
            &&& r->0.start == interval
            &&& r->0.min.wf()
            &&& r->0.min.total_nanos() == interval.total_nanos() / (min_divisor as nat)
            &&& r->0.max.wf()
            &&& r->0.max.total_nanos() == interval.total_nanos() * max_multiplier
        },
{
    if !(adaptive && has_ledger) {
        return None;
    }
    let total: u128 = interval.as_nanos();
    let min: u128 = total / min_divisor as u128;
    proof {
        vstd::arithmetic::div_mod::lemma_div_is_ordered_by_denominator(
            total as int,
            1,
            min_divisor as int,
        );
        vstd::arithmetic::div_mod::lemma_div_basics(total as int);
        assert(total * max_multiplier < 1_000_000_000 * 0x1_0000_0000_0000_0000);
    }
    let max: u128 = total * max_multiplier as u128;
    Some(
        TunerBounds {
            start: interval,
            min: Duration::from_total_nanos(min),
            max: Duration::from_total_nanos(max),
        },
    )
}

/// What a sink reports, as far as crediting goes: how many outputs it confirmed and how many it
/// took without confirming them, or that a flush completed.
pub ghost enum CreditEvent {
    Written { delivered: nat, pending: nat },
    Flushed,
}

/// Outputs credited as sent, and outputs that wait for a flush.
pub ghost struct Credit {
    pub sent: nat,
    pub waiting: nat,
}

/// The effect of one report: the changes that `batch_written` and `credit_pending_on_flush` make
/// to the counter of outputs sent and to the outputs that wait.
pub open spec fn credit_step(c: Credit, e: CreditEvent) -> Credit {
    match e {
        CreditEvent::Written { delivered, pending } => Credit {
            sent: c.sent + delivered,
            waiting: c.waiting + pending,
        },
        CreditEvent::Flushed => Credit { sent: c.sent + c.waiting, waiting: 0 },
    }
}

/// The effect of a run of reports.
pub open spec fn credit_run(events: Seq<CreditEvent>) -> Credit
    decreases events.len(),
{
    if events.len() == 0 {
        Credit { sent: 0, waiting: 0 }
    } else {
        credit_step(credit_run(events.drop_last()), events.last())
    }
}

/// How many outputs the sink has taken in a run of reports.
pub open spec fn accepted(events: Seq<CreditEvent>) -> nat
    decreases events.len(),
{
    if events.len() == 0 {
        0
    } else {
        accepted(events.drop_last()) + (match events.last() {
            CreditEvent::Written { delivered, pending } => delivered + pending,
            CreditEvent::Flushed => 0,
        })
    }
}

/// No output that a sink has taken is lost or counted twice: each is credited as sent or waits
/// for a flush, and after a flush every one is credited.
pub proof fn law_outputs_are_credited_once(events: Seq<CreditEvent>)
    ensures
        credit_run(events).sent + credit_run(events).waiting == accepted(events),
        events.len() > 0 && events.last() is Flushed ==> credit_run(events).sent == accepted(
            events,
        ),
    decreases events.len(),
{
    if events.len() > 0 {
        law_outputs_are_credited_once(events.drop_last());
    }
}

/// The watermark of a stage is at least the sequence number of every event that it was told was
/// delivered.
pub proof fn law_highest_covers_delivered(seqs: Map<u128, u64>, delivered: Seq<u128>, i: int)
    requires
        0 <= i < delivered.len(),
        seqs.contains_key(delivered[i]),
    ensures
        seqs[delivered[i]] <= highest_of(seqs, delivered),
    decreases delivered.len(),
{
    if i < delivered.len() - 1 {
        law_highest_covers_delivered(seqs, delivered.drop_last(), i);
        assert(delivered.drop_last()[i] == delivered[i]);
    }
}

/// The ledger hears of every output that knows its event, in order, under the output's own
/// partition and offset: there are positions in the batch, in order, that hold the outputs the
/// ledger hears of, and no other position holds an output that knows its event.
pub proof fn law_the_ledger_hears_of_each_output(outputs: Seq<Output>) -> (at: Seq<int>)
    ensures
        at.len() == tracked_of(outputs).len(),
        forall|i: int, j: int| 0 <= i < j < at.len() ==> at[i] < at[j],
        forall|k: int|
            0 <= k < at.len() ==> {
                let o = outputs[#[trigger] at[k]];
                &&& 0 <= at[k] < outputs.len()
                &&& o.source_event_id == Some(tracked_of(outputs)[k].event_id)
                &&& o.source_partition is Some ==> o.source_partition == Some(
                    tracked_of(outputs)[k].partition,
                )
                &&& o.source_partition is None ==> tracked_of(outputs)[k].partition == 0
                &&& o.source_offset is Some ==> o.source_offset == Some(
                    tracked_of(outputs)[k].offset,
                )
                &&& o.source_offset is None ==> tracked_of(outputs)[k].offset == 0
            },
        forall|i: int|
            0 <= i < outputs.len() && (#[trigger] outputs[i]).source_event_id is Some
                ==> at.contains(i),
    decreases outputs.len(),
{
    if outputs.len() == 0 {
        seq![]
    } else {
        let rest = outputs.drop_last();
        let last = outputs.len() - 1;
        let before = law_the_ledger_hears_of_each_output(rest);
        let at = if outputs.last().source_event_id is Some {
            before.push(last)
        } else {
            before
        };
        assert forall|i: int|
            0 <= i < outputs.len() && (
            #[trigger] outputs[i]).source_event_id is Some implies at.contains(i) by {
            if i < last {
                assert(rest[i].source_event_id is Some);
                let w = choose|w: int| 0 <= w < before.len() && before[w] == i;
                assert(at[w] == i);
            } else {
                assert(at[at.len() - 1] == i);
            }
        }
        assert forall|k: int| 0 <= k < at.len() implies ({
            let o = outputs[#[trigger] at[k]];
            &&& 0 <= at[k] < outputs.len()
            &&& o.source_event_id == Some(tracked_of(outputs)[k].event_id)
            &&& o.source_partition is Some ==> o.source_partition == Some(
                tracked_of(outputs)[k].partition,
            )
            &&& o.source_partition is None ==> tracked_of(outputs)[k].partition == 0
            &&& o.source_offset is Some ==> o.source_offset == Some(tracked_of(outputs)[k].offset)
            &&& o.source_offset is None ==> tracked_of(outputs)[k].offset == 0
        }) by {
            if k < before.len() {
                assert(before[k] == at[k]);
                assert(rest[before[k]] == outputs[at[k]]);
            }
        }
        at
    }
}

/// An event of a batch has the body-store number of the last of its outputs that has one.
pub proof fn law_an_event_has_its_last_number(outputs: Seq<Output>, i: int)
    requires
        0 <= i < outputs.len(),
        outputs[i].source_event_id is Some,
        outputs[i].l2_seq is Some,
        forall|j: int|
            i < j < outputs.len() && (#[trigger] outputs[j]).source_event_id
                == outputs[i].source_event_id ==> outputs[j].l2_seq is None,
    ensures
        l2_seqs_of(outputs).contains_pair(outputs[i].source_event_id->0, outputs[i].l2_seq->0),
    decreases outputs.len(),
{
    if i < outputs.len() - 1 {
        let rest = outputs.drop_last();
        assert(outputs[outputs.len() - 1].source_event_id == outputs[i].source_event_id
            ==> outputs[outputs.len() - 1].l2_seq is None);
        assert forall|j: int|
            i < j < rest.len() && (#[trigger] rest[j]).source_event_id
                == rest[i].source_event_id implies rest[j].l2_seq is None by {
            assert(outputs[j] == rest[j]);
        }
        law_an_event_has_its_last_number(rest, i);
    }
}

/// Every number that an event of a batch has is that of one of its outputs.
pub proof fn law_numbers_are_those_of_outputs(outputs: Seq<Output>, id: u128)
    requires
        l2_seqs_of(outputs).contains_key(id),
    ensures
        exists|i: int|
            0 <= i < outputs.len() && (#[trigger] outputs[i]).source_event_id == Some(id)
                && outputs[i].l2_seq == Some(l2_seqs_of(outputs)[id]),
    decreases outputs.len(),
{
    let rest = outputs.drop_last();
    let last = outputs[outputs.len() - 1];
    if !(last.source_event_id == Some(id) && last.l2_seq is Some) {
        law_numbers_are_those_of_outputs(rest, id);
        let i = choose|i: int|
            0 <= i < rest.len() && (#[trigger] rest[i]).source_event_id == Some(id)
                && rest[i].l2_seq == Some(l2_seqs_of(rest)[id]);
        assert(outputs[i] == rest[i]);
    }
}

/// The watermark of a stage is that of an event that was delivered, or zero where none of those
/// delivered has a number.
pub proof fn law_the_watermark_is_of_a_delivered_event(
    seqs: Map<u128, u64>,
    delivered: Seq<u128>,
)
    ensures
        highest_of(seqs, delivered) == 0 || exists|i: int|
            0 <= i < delivered.len() && seqs.contains_key(#[trigger] delivered[i])
                && seqs[delivered[i]] == highest_of(seqs, delivered),
    decreases delivered.len(),
{
    if delivered.len() > 0 {
        let rest = delivered.drop_last();
        law_the_watermark_is_of_a_delivered_event(seqs, rest);
        let top = highest_of(seqs, delivered);
        if seqs.contains_key(delivered.last()) && seqs[delivered.last()] == top {
            assert(delivered[delivered.len() - 1] == delivered.last());
        } else if top != 0 {
            let i = choose|i: int|
                0 <= i < rest.len() && seqs.contains_key(#[trigger] rest[i]) && seqs[rest[i]]
                    == highest_of(seqs, rest);
            assert(delivered[i] == rest[i]);
        }
    }
}

/// A checkpoint holds what was counted since the last one, the ledger's own offsets and pending
/// events, and the watermark of every sink; without a store there is none.
pub proof fn law_a_checkpoint_holds_what_is_known(
    task: SinkTask,
    ledger: Option<LedgerSnapshot>,
    tracker: Option<&AckSeqTracker>,
    r: Option<CheckpointRecord>,
)
    requires
        checkpoint_of(task, ledger, tracker, r),
    ensures
        r is Some <==> task.has_writer,
        r is Some ==> {
            let record = r->0;
            &&& record.checkpoint_id == 0
            &&& record.delivered_count == task.delivered_since_checkpoint
            &&& record.failed_count == task.failed_since_checkpoint
            &&& ledger is Some ==> record.source_offsets@ == ledger->0.offsets@
                && record.pending_event_ids@ == ledger->0.pending@
            &&& ledger is None ==> record.source_offsets@.len() == 0
                && record.pending_event_ids@.len() == 0
            &&& tracker is Some ==> forall|sink: Seq<char>, seq: u64|
                #![trigger tracker->0@.contains_pair(sink, seq)]
                tracker->0@.contains_pair(sink, seq) <==> record.per_sink_ack_seq@.contains_pair(
                    sink,
                    seq,
                )
            &&& tracker is None ==> forall|sink: Seq<char>|
                !record.per_sink_ack_seq@.contains_key(sink)
        },
{
}

/// A stage that waits for delivery owes a checkpoint exactly where something was delivered since
/// the last one and its interval has passed; a stage that does not wait never owes one this way.
pub proof fn law_when_a_checkpoint_is_owed(task: SinkTask, now: u64, tuned: Option<Duration>)
    ensures
        task.delivery_strategy == DeliveryStrategy::UnorderedBatch ==> !task.checkpoint_due(now),
        task.delivery_strategy != DeliveryStrategy::UnorderedBatch ==> (task.checkpoint_due(now)
            <==> task.delivered_since_checkpoint > 0 && (now - task.last_flush
            >= task.flush_interval.secs * 1_000_000_000 + task.flush_interval.nanos
            || task.flush_interval.secs == 0 && task.flush_interval.nanos == 0)),
        task.effective_interval(None) == task.flush_interval,
        tuned is Some ==> task.effective_interval(tuned) == tuned->0,
{
}

/// The counters have room for so many outputs more exactly where none of them would run over.
pub proof fn law_there_is_room_while_no_counter_runs_over(task: SinkTask, n: u64, less: u64)
    ensures
        task.room_for(n as nat) <==> {
            &&& task.pending_count <= u64::MAX - n
            &&& task.delivered_since_checkpoint <= u64::MAX - n
            &&& task.failed_since_checkpoint <= u64::MAX - n
            &&& task.acked_since_last_flush <= u64::MAX - n
            &&& task.events_since_last_flush <= u64::MAX - n
        },
        task.room_for(n as nat) && less <= n ==> task.room_for(less as nat),
{
}

/// Two stages are set up alike exactly where none of what they are set up with differs.
pub proof fn law_what_a_stage_is_set_up_with(a: SinkTask, b: SinkTask)
    ensures
        a.same_setup(&b) <==> {
            &&& a.delivery_strategy == b.delivery_strategy
            &&& a.flush_interval == b.flush_interval
            &&& a.max_pending == b.max_pending
            &&& a.failure_policy == b.failure_policy
            &&& a.has_ledger == b.has_ledger
            &&& a.has_writer == b.has_writer
            &&& a.has_capacity == b.has_capacity
            &&& a.tracks_acks == b.tracks_acks
        },
{
}

} // verus!
