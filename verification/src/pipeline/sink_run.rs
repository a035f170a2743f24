//! The run of a sink stage: from what has happened to what is to be done next, until the stage
//! ends.
use vstd::prelude::*;

use crate::error::AeonError;
use crate::pipeline::failures::{
    failures_reported, follows, handle_batch_failures, law_a_failed_output_is_written_again,
    law_attempts_are_used_up, outputs_to_retry, retry_finished, retry_reported, FailureReport,
    FailureStep, RetryRound,
};
use crate::pipeline::metrics::PipelineMetrics;
use crate::pipeline::recovery::{AckSeqTracker, CheckpointRecord, LedgerSnapshot};
use crate::pipeline::sink_task::{
    checkpoint_of, highest_of, l2_seqs_of, law_highest_covers_delivered,
    law_the_ledger_hears_of_each_output, law_the_watermark_is_of_a_delivered_event, tracked_of,
    InFlight, SinkTask, TrackedOutput, RECOVERY_ATTEMPT_EVERY_N_FLUSHES,
};
use crate::time::{elapsed_reaches, Duration};
use crate::types::{
    copy_outputs, output_copies, BatchFailurePolicy, BatchResult, DeliveryStrategy, Output,
};

verus! {

/// Where the stage goes on after something in between.
#[derive(Debug, Clone, Copy, PartialEq, Eq, Structural)]
pub enum Resume {
    /// With the next batch.
    Poll,
    /// With the next batch, once others have had their turn.
    Wait,
}

/// Why a checkpoint is written.
#[derive(Debug, Clone, Copy, PartialEq, Eq, Structural)]
pub enum CheckpointCause {
    /// The interval of a stage that waits for delivery has passed.
    Interval(Resume),
    /// The sink has been flushed.
    Flush(Resume),
    /// The stage ends.
    End,
}

/// What the stage waits for.
pub enum SinkPhase {
    /// The next batch.
    Polling,
    /// The sink's word on a batch. The outputs are kept where they may be written again.
    Writing { batch: InFlight, kept: Vec<Output> },
    /// The sink's word on outputs of a batch that were written again.
    Retrying { count: u64, failed: u64, round: RetryRound },
    /// The end of a flush; the last one where the stage does not go on.
    Flushing(Option<Resume>),
    /// A checkpoint to be made.
    Checkpointing(CheckpointCause),
    /// A checkpoint to be stored.
    Storing(CheckpointCause),
    /// Nothing more.
    Ended,
}

/// What has happened.
pub enum SinkEvent {
    /// A batch has come.
    Received(Vec<Output>),
    /// No batch is there.
    Empty,
    /// No batch will come.
    Closed,
    /// The sink has answered to outputs.
    Written(Result<BatchResult, AeonError>),
    /// The sink has answered to a flush.
    Flushed(Result<(), AeonError>),
    /// The store has answered to the checkpoint, where there is a store.
    Stored(Result<(), AeonError>),
}

/// What is to be done next.
pub enum SinkAct {
    /// Ask for a batch.
    Poll,
    /// Let others have their turn, and ask for a batch.
    Wait,
    /// Write these outputs.
    Write(Vec<Output>),
    /// Wait for the configured backoff, and write these outputs.
    WriteAgain(Vec<Output>),
    /// Flush the sink.
    Flush,
    /// Make a checkpoint and store it.
    Checkpoint,
    /// Stop, with this outcome.
    End(Result<(), AeonError>),
}

/// What others are to be told, in this order, before the next thing is done.
pub struct SinkStep {
    /// The ledger is to follow these outputs.
    pub follow: Vec<TrackedOutput>,
    /// The ledger is to mark these events as delivered.
    pub acknowledge: Vec<u128>,
    /// The ledger is to mark these events as failed, each for its reason.
    pub fail: Vec<(u128, String)>,
    /// The watermark to record for this sink.
    pub advance: Option<u64>,
    /// The ledger is to mark these events as failed after the last retry.
    pub exhausted: Vec<(u128, String)>,
    /// The body stores are to be swept.
    pub sweep: bool,
    /// The checkpoint store is to return to its primary.
    pub recover: bool,
    /// The tuner of the flush interval is to hear how many outputs were written, and how many
    /// acknowledged, since the last flush.
    pub tune: Option<(u64, u64)>,
    pub act: SinkAct,
}

impl SinkStep {
    /// The ledger is told nothing of outputs that failed.
    pub open spec fn fails_nothing(&self) -> bool {
        self.fail@.len() == 0 && self.exhausted@.len() == 0
    }

    /// Nobody but the ledger is told anything.
    pub open spec fn ledger_only(&self) -> bool {
        self.advance is None && !self.sweep && !self.recover && self.tune is None
    }

    /// Nobody is told anything.
    pub open spec fn quiet(&self) -> bool {
        &&& self.follow@.len() == 0
        &&& self.acknowledge@.len() == 0
        &&& self.fails_nothing()
        &&& self.ledger_only()
    }

    fn only(act: SinkAct) -> (r: Self)
        ensures
            r.quiet(),
            r.act == act,
    {
        SinkStep {
            follow: Vec::new(),
            acknowledge: Vec::new(),
            fail: Vec::new(),
            advance: None,
            exhausted: Vec::new(),
            sweep: false,
            recover: false,
            tune: None,
            act,
        }
    }
}

/// The counters of a sink stage.
#[verifier::ext_equal]
pub ghost struct Progress {
    pub max_acked_seq: u64,
    pub flushes: nat,
    pub last_flush: u64,
    pub pending_count: nat,
    pub pending_ids: Seq<u128>,
    pub delivered: nat,
    pub failed: nat,
    pub acked: nat,
    pub events: nat,
}

/// The counters of a task.
pub open spec fn progress(task: SinkTask) -> Progress {
    Progress {
        max_acked_seq: task.max_acked_seq,
        flushes: task.flushes_since_recovery_attempt as nat,
        last_flush: task.last_flush,
        pending_count: task.pending_count as nat,
        pending_ids: task.pending_ids@,
        delivered: task.delivered_since_checkpoint as nat,
        failed: task.failed_since_checkpoint as nat,
        acked: task.acked_since_last_flush as nat,
        events: task.events_since_last_flush as nat,
    }
}

/// The run of a sink stage.
pub struct SinkRun {
    pub task: SinkTask,
    pub max_retries: u32,
    pub phase: SinkPhase,
}

impl SinkRun {
    /// Retries stay within what is allowed, and a checkpoint that follows a flush finds nothing
    /// that still waits to be credited.
    pub open spec fn wf(&self) -> bool {
        &&& self.task.wf()
        &&& match self.phase {
            SinkPhase::Retrying { round, .. } => round.attempt <= round.max_retries,
            SinkPhase::Checkpointing(cause) | SinkPhase::Storing(cause) => cause is Interval
                || self.task.pending_ids@.len() == 0,
            _ => true,
        }
    }

    /// Whether the stage waits for something like this.
    pub open spec fn expects(&self, event: SinkEvent) -> bool {
        match event {
            SinkEvent::Received(_) | SinkEvent::Empty | SinkEvent::Closed => self.phase is Polling,
            SinkEvent::Written(_) => self.phase is Writing || self.phase is Retrying,
            SinkEvent::Flushed(_) => self.phase is Flushing,
            SinkEvent::Stored(_) => self.phase is Storing,
        }
    }

    /// By how many outputs the counters may grow.
    pub open spec fn growth(&self, event: SinkEvent) -> nat {
        match (self.phase, event) {
            (SinkPhase::Writing { batch, .. }, SinkEvent::Written(Ok(result))) => (
            result.delivered@.len() + result.failed@.len() + 2 * batch.count) as nat,
            (SinkPhase::Retrying { count, failed, .. }, _) => (count + failed) as nat,
            (SinkPhase::Flushing(_), _) => self.task.pending_ids@.len(),
            _ => 0,
        }
    }

    /// The same stage: what it was set up with has not changed.
    pub open spec fn same_setup(&self, other: &SinkRun) -> bool {
        self.task.same_setup(&other.task) && self.max_retries == other.max_retries
    }
}

/// What a stage does once a batch of `count` outputs is dealt with and its counters stand at
/// `p`: the outputs count as pending where writing does not wait for delivery, and a sweep, a
/// checkpoint or a flush follows where it is due.
pub open spec fn goes_on(
    before: SinkRun,
    p: Progress,
    count: u64,
    now: u64,
    tuned: Option<Duration>,
    after: SinkRun,
    step: SinkStep,
) -> bool {
    let blocking = before.task.delivery_strategy.blocking();
    let q = if blocking {
        p
    } else {
        Progress { pending_count: p.pending_count + count as nat, ..p }
    };
    let checkpoint = blocking && p.delivered > 0 && elapsed_reaches(
        p.last_flush,
        now,
        before.task.flush_interval,
    );
    let flush = !blocking && (elapsed_reaches(
        p.last_flush,
        now,
        before.task.effective_interval(tuned),
    ) || q.pending_count >= before.task.max_pending);
    &&& progress(after.task) == q
    &&& step.sweep == (blocking && before.task.has_capacity)
    &&& step.tune == (if flush {
        Some((p.events as u64, p.acked as u64))
    } else {
        None
    })
    &&& if checkpoint {
        step.act is Checkpoint && after.phase == SinkPhase::Checkpointing(
            CheckpointCause::Interval(Resume::Poll),
        )
    } else if flush {
        step.act is Flush && after.phase == SinkPhase::Flushing(Some(Resume::Poll))
    } else {
        step.act is Poll && after.phase is Polling
    }
}

/// What a stage does about the failures of a batch, as the report on them says.
pub open spec fn carries_out(
    before: SinkRun,
    p: Progress,
    report: FailureReport,
    count: u64,
    failed: u64,
    now: u64,
    tuned: Option<Duration>,
    after: SinkRun,
    step: SinkStep,
) -> bool {
    &&& step.exhausted@ == to_ledger(before.task, report.exhausted@)
    &&& match report.step {
        FailureStep::Settled => goes_on(
            before,
            Progress { failed: p.failed + failed as nat, ..p },
            count,
            now,
            tuned,
            after,
            step,
        ),
        FailureStep::Abort(e) => {
            &&& progress(after.task) == p
            &&& after.phase is Ended
            &&& step.act == SinkAct::End(Err(e))
            &&& !step.sweep
            &&& step.tune is None
        },
        FailureStep::Retry(round) => {
            &&& progress(after.task) == p
            &&& after.phase == SinkPhase::Retrying { count, failed, round }
            &&& step.act is WriteAgain
            &&& output_copies(step.act->WriteAgain_0@, round.outputs@)
            &&& !step.sweep
            &&& step.tune is None
        },
    }
}

/// The ledger is told what is given, where there is one.
pub open spec fn to_ledger<T>(task: SinkTask, entries: Seq<T>) -> Seq<T> {
    if task.has_ledger {
        entries
    } else {
        seq![]
    }
}

/// Whether events are marked as failed, each for its reason.
pub open spec fn marks(entries: Seq<(u128, String)>, failed: Seq<(u128, String)>) -> bool {
    &&& entries.len() == failed.len()
    &&& forall|i: int|
        0 <= i < failed.len() ==> (#[trigger] entries[i]).0 == failed[i].0 && entries[i].1@
            == failed[i].1@
}

/// Whether all events of a batch are marked as failed for one reason.
pub open spec fn marks_all(
    entries: Seq<(u128, String)>,
    batch: Seq<TrackedOutput>,
    reason: Seq<char>,
) -> bool {
    &&& entries.len() == batch.len()
    &&& forall|i: int|
        0 <= i < batch.len() ==> (#[trigger] entries[i]).0 == batch[i].event_id && entries[i].1@
            == reason
}

/// A batch has come: the ledger follows its outputs, and they are written.
pub open spec fn on_received(
    before: SinkRun,
    outputs: Vec<Output>,
    after: SinkRun,
    step: SinkStep,
) -> bool {
    &&& after.task == before.task
    &&& after.phase is Writing
    &&& after.phase->batch.count == outputs@.len()
    &&& after.phase->batch.entries@ == to_ledger(before.task, tracked_of(outputs@))
    &&& after.phase->batch.seqs@ == (if before.task.tracks_acks {
        l2_seqs_of(outputs@)
    } else {
        Map::empty()
    })
    &&& if before.task.failure_policy == BatchFailurePolicy::RetryFailed {
        output_copies(after.phase->kept@, outputs@)
    } else {
        after.phase->kept@.len() == 0
    }
    &&& step.follow@ == to_ledger(before.task, tracked_of(outputs@))
    &&& step.acknowledge@.len() == 0
    &&& step.fails_nothing()
    &&& step.ledger_only()
    &&& step.act == SinkAct::Write(outputs)
}

/// No batch is there: a checkpoint or a flush follows where it is due.
pub open spec fn on_empty(
    before: SinkRun,
    now: u64,
    tuned: Option<Duration>,
    after: SinkRun,
    step: SinkStep,
) -> bool {
    let task = before.task;
    let flush = !task.delivery_strategy.blocking() && task.pending_count > 0 && elapsed_reaches(
        task.last_flush,
        now,
        task.effective_interval(tuned),
    );
    &&& after.task == task
    &&& step.follow@.len() == 0
    &&& step.acknowledge@.len() == 0
    &&& step.fails_nothing()
    &&& step.advance is None && !step.sweep && !step.recover
    &&& step.tune == (if flush {
        Some((task.events_since_last_flush, task.acked_since_last_flush))
    } else {
        None
    })
    &&& if task.checkpoint_due(now) {
        step.act is Checkpoint && after.phase == SinkPhase::Checkpointing(
            CheckpointCause::Interval(Resume::Wait),
        )
    } else if flush {
        step.act is Flush && after.phase == SinkPhase::Flushing(Some(Resume::Wait))
    } else {
        step.act is Wait && after.phase is Polling
    }
}

/// The counters once the sink has answered to a batch.
pub open spec fn written_progress(task: SinkTask, batch: InFlight, result: BatchResult) -> Progress {
    let p = progress(task);
    let top = highest_of(batch.seqs@, result.delivered@);
    Progress {
        max_acked_seq: (if task.tracks_acks && top > p.max_acked_seq {
            top
        } else {
            p.max_acked_seq
        }),
        pending_ids: p.pending_ids + result.pending@,
        delivered: p.delivered + result.delivered@.len(),
        acked: p.acked + result.delivered@.len(),
        events: p.events + batch.count as nat,
        ..p
    }
}

/// The sink has answered to a batch: the ledger and the watermark follow, and the failure policy
/// is applied to what failed.
pub open spec fn on_written(
    before: SinkRun,
    batch: InFlight,
    kept: Seq<Output>,
    result: BatchResult,
    now: u64,
    tuned: Option<Duration>,
    m0: PipelineMetrics,
    after: SinkRun,
    m1: PipelineMetrics,
    step: SinkStep,
) -> bool {
    let p = written_progress(before.task, batch, result);
    let sent = PipelineMetrics {
        outputs_sent: m0.outputs_sent.wrapping_add(result.delivered@.len() as u64),
        ..m0
    };
    &&& step.follow@.len() == 0
    &&& step.acknowledge@ == to_ledger(before.task, result.delivered@)
    &&& marks(step.fail@, to_ledger(before.task, result.failed@))
    &&& step.advance == (if p.max_acked_seq > before.task.max_acked_seq {
        Some(p.max_acked_seq)
    } else {
        None
    })
    &&& !step.recover
    &&& if result.failed@.len() == 0 {
        &&& m1 == sent
        &&& step.exhausted@.len() == 0
        &&& goes_on(before, p, batch.count, now, tuned, after, step)
    } else {
        exists|report: FailureReport|
            {
                &&& #[trigger] failures_reported(
                    kept,
                    result.failed@,
                    before.task.failure_policy,
                    before.max_retries,
                    sent,
                    m1,
                    report,
                )
                &&& carries_out(
                    before,
                    p,
                    report,
                    batch.count,
                    result.failed@.len() as u64,
                    now,
                    tuned,
                    after,
                    step,
                )
            }
    }
}

/// The sink has answered to outputs that were written again.
pub open spec fn on_written_again(
    before: SinkRun,
    count: u64,
    failed: u64,
    round: RetryRound,
    result: BatchResult,
    now: u64,
    tuned: Option<Duration>,
    m0: PipelineMetrics,
    after: SinkRun,
    m1: PipelineMetrics,
    step: SinkStep,
) -> bool {
    &&& step.follow@.len() == 0
    &&& step.acknowledge@ == to_ledger(before.task, result.delivered@)
    &&& step.fail@.len() == 0
    &&& step.advance is None
    &&& !step.recover
    &&& exists|report: FailureReport|
        {
            &&& #[trigger] retry_reported(round, result, m0, m1, report)
            &&& carries_out(
                before,
                progress(before.task),
                report,
                count,
                failed,
                now,
                tuned,
                after,
                step,
            )
        }
}

/// A flush is over: what waited for it is credited, and a checkpoint follows; at the end only
/// where something has happened since the last one.
pub open spec fn on_flushed(
    before: SinkRun,
    resume: Option<Resume>,
    m0: PipelineMetrics,
    after: SinkRun,
    m1: PipelineMetrics,
    step: SinkStep,
) -> bool {
    let p = progress(before.task);
    let waiting = p.pending_ids.len();
    let q = Progress {
        pending_ids: seq![],
        delivered: p.delivered + waiting,
        acked: p.acked + waiting,
        ..p
    };
    &&& progress(after.task) == q
    &&& m1 == PipelineMetrics { outputs_sent: m0.outputs_sent.wrapping_add(waiting as u64), ..m0 }
    &&& step.follow@.len() == 0
    &&& step.acknowledge@ == to_ledger(before.task, p.pending_ids)
    &&& step.fails_nothing()
    &&& step.ledger_only()
    &&& match resume {
        Some(then) => step.act is Checkpoint && after.phase == SinkPhase::Checkpointing(
            CheckpointCause::Flush(then),
        ),
        None => if q.delivered > 0 || q.failed > 0 {
            step.act is Checkpoint && after.phase == SinkPhase::Checkpointing(CheckpointCause::End)
        } else {
            step.act == SinkAct::End(Ok(())) && after.phase is Ended
        },
    }
}

/// What is to be done where a stage goes on.
pub open spec fn act_of(resume: Resume, act: SinkAct) -> bool {
    match resume {
        Resume::Poll => act is Poll,
        Resume::Wait => act is Wait,
    }
}

/// The store has answered to a checkpoint. One that it took counts as written, and what it covers
/// is counted no more. Either way the interval starts anew, and after a flush the body stores are
/// swept and the counters of the interval start anew too.
pub open spec fn on_stored(
    before: SinkRun,
    cause: CheckpointCause,
    answer: Result<(), AeonError>,
    now: u64,
    m0: PipelineMetrics,
    after: SinkRun,
    m1: PipelineMetrics,
    step: SinkStep,
) -> bool {
    let taken = before.task.has_writer && answer is Ok;
    let p = if taken {
        Progress { delivered: 0, failed: 0, ..progress(before.task) }
    } else {
        progress(before.task)
    };
    let recovers = p.flushes + 1 == RECOVERY_ATTEMPT_EVERY_N_FLUSHES;
    &&& m1 == (if taken {
        PipelineMetrics { checkpoints_written: m0.checkpoints_written.wrapping_add(1), ..m0 }
    } else {
        m0
    })
    &&& step.follow@.len() == 0
    &&& step.acknowledge@.len() == 0
    &&& step.fails_nothing()
    &&& step.advance is None && step.tune is None
    &&& step.sweep == !(cause is Interval)
    &&& step.recover == (cause is Flush && recovers)
    &&& match cause {
        CheckpointCause::Interval(then) => {
            &&& progress(after.task) == Progress { last_flush: now, ..p }
            &&& after.phase is Polling
            &&& act_of(then, step.act)
        },
        CheckpointCause::Flush(then) => {
            &&& progress(after.task) == Progress {
                flushes: (if recovers {
                    0
                } else {
                    p.flushes + 1
                }),
                pending_count: 0,
                last_flush: now,
                acked: 0,
                events: 0,
                ..p
            }
            &&& after.phase is Polling
            &&& act_of(then, step.act)
        },
        CheckpointCause::End => {
            &&& progress(after.task) == p
            &&& after.phase is Ended
            &&& step.act == SinkAct::End(Ok(()))
        },
    }
}

/// The stage ends with an error that came from the sink.
pub open spec fn breaks_off(
    before: SinkRun,
    error: AeonError,
    m0: PipelineMetrics,
    after: SinkRun,
    m1: PipelineMetrics,
    step: SinkStep,
) -> bool {
    &&& after.task == before.task
    &&& m1 == m0
    &&& after.phase is Ended
    &&& step.act == SinkAct::End(Err(error))
    &&& step.follow@.len() == 0
    &&& step.acknowledge@.len() == 0
    &&& step.exhausted@.len() == 0
    &&& step.ledger_only()
}

/// What a stage makes of an event.
pub open spec fn reacts(
    before: SinkRun,
    event: SinkEvent,
    now: u64,
    tuned: Option<Duration>,
    m0: PipelineMetrics,
    after: SinkRun,
    m1: PipelineMetrics,
    step: SinkStep,
) -> bool {
    &&& after.same_setup(&before)
    &&& match (before.phase, event) {
        (SinkPhase::Polling, SinkEvent::Received(outputs)) => m1 == m0 && on_received(
            before,
            outputs,
            after,
            step,
        ),
        (SinkPhase::Polling, SinkEvent::Empty) => m1 == m0 && on_empty(
            before,
            now,
            tuned,
            after,
            step,
        ),
        (SinkPhase::Polling, SinkEvent::Closed) => {
            &&& m1 == m0
            &&& after.task == before.task
            &&& after.phase == SinkPhase::Flushing(None)
            &&& step.quiet()
            &&& step.act is Flush
        },
        (SinkPhase::Writing { batch, .. }, SinkEvent::Written(Err(e))) => {
            &&& breaks_off(before, e, m0, after, m1, step)
            &&& marks_all(step.fail@, batch.entries@, e.text())
        },
        (SinkPhase::Writing { batch, kept }, SinkEvent::Written(Ok(result))) => on_written(
            before,
            batch,
            kept@,
            result,
            now,
            tuned,
            m0,
            after,
            m1,
            step,
        ),
        (SinkPhase::Retrying { .. }, SinkEvent::Written(Err(e))) => {
            &&& breaks_off(before, e, m0, after, m1, step)
            &&& step.fail@.len() == 0
        },
        (SinkPhase::Retrying { count, failed, round }, SinkEvent::Written(Ok(result))) =>
            on_written_again(
            before,
            count,
            failed,
            round,
            result,
            now,
            tuned,
            m0,
            after,
            m1,
            step,
        ),
        (SinkPhase::Flushing(_), SinkEvent::Flushed(Err(e))) => {
            &&& breaks_off(before, e, m0, after, m1, step)
            &&& step.fail@.len() == 0
        },
        (SinkPhase::Flushing(resume), SinkEvent::Flushed(Ok(_))) => on_flushed(
            before,
            resume,
            m0,
            after,
            m1,
            step,
        ),
        (SinkPhase::Storing(cause), SinkEvent::Stored(answer)) => on_stored(
            before,
            cause,
            answer,
            now,
            m0,
            after,
            m1,
            step,
        ),
        _ => false,
    }
}

fn copy_entries(entries: &Vec<TrackedOutput>) -> (r: Vec<TrackedOutput>)
    ensures
        r@ == entries@,
{
    let mut out: Vec<TrackedOutput> = Vec::new();
    let mut i: usize = 0;
    while i < entries.len()
        invariant
            i <= entries@.len(),
            out@ == entries@.take(i as int),
        decreases entries@.len() - i,
    {
        out.push(entries[i]);
        proof {
            assert(out@ =~= entries@.take(i + 1));
        }
        i += 1;
    }
    proof {
        assert(entries@.take(entries@.len() as int) =~= entries@);
    }
    out
}

fn mark_all(entries: &Vec<TrackedOutput>, reason: &str) -> (r: Vec<(u128, String)>)
    ensures
        marks_all(r@, entries@, reason@),
{
    let mut out: Vec<(u128, String)> = Vec::new();
    let mut i: usize = 0;
    while i < entries.len()
        invariant
            i <= entries@.len(),
            out@.len() == i,
            forall|j: int|
                0 <= j < i ==> (#[trigger] out@[j]).0 == entries@[j].event_id && out@[j].1@
                    == reason@,
        decreases entries@.len() - i,
    {
        out.push((entries[i].event_id, reason.to_owned()));
        i += 1;
    }
    out
}

fn mark_each(failed: &Vec<(u128, String)>) -> (r: Vec<(u128, String)>)
    ensures
        marks(r@, failed@),
{
    let mut out: Vec<(u128, String)> = Vec::new();
    let mut i: usize = 0;
    while i < failed.len()
        invariant
            i <= failed@.len(),
            out@.len() == i,
            forall|j: int|
                0 <= j < i ==> (#[trigger] out@[j]).0 == failed@[j].0 && out@[j].1@ == failed@[j].1@,
        decreases failed@.len() - i,
    {
        out.push((failed[i].0, failed[i].1.clone()));
        i += 1;
    }
    out
}

impl SinkRun {
    /// A run that starts by asking for a batch.
    pub fn new(task: SinkTask, max_retries: u32) -> (r: Self)
        requires
            task.wf(),
        ensures
            r.wf(),
            r.task == task,
            r.max_retries == max_retries,
            r.phase is Polling,
    {
        SinkRun { task, max_retries, phase: SinkPhase::Polling }
    }

    /// Whether the counters can take what follows from an event.
    pub fn has_room(&self, event: &SinkEvent) -> (r: bool)
        ensures
            r == self.task.room_for(self.growth(*event)),
    {
        let growth: u128 = match &self.phase {
            SinkPhase::Writing { batch, .. } => match event {
                SinkEvent::Written(Ok(result)) => result.delivered.len() as u128
                    + result.failed.len() as u128 + 2 * (batch.count as u128),
                _ => 0,
            },
            SinkPhase::Retrying { count, failed, .. } => *count as u128 + *failed as u128,
            SinkPhase::Flushing(_) => self.task.pending_ids.len() as u128,
            _ => 0,
        };
        growth <= u64::MAX as u128 && self.task.has_room(growth as u64)
    }

    fn go_on(&mut self, count: u64, now: u64, tuned: Option<Duration>) -> (r: SinkStep)
        requires
            old(self).task.wf(),
            old(self).task.room_for(count as nat),
        ensures
            final(self).wf(),
            final(self).same_setup(old(self)),
            goes_on(*old(self), progress(old(self).task), count, now, tuned, *final(self), r),
            r.follow@.len() == 0,
            r.acknowledge@.len() == 0,
            r.fails_nothing(),
            r.advance is None,
            !r.recover,
    {
        let after = self.task.after_batch(count, now, tuned);
        let mut step = if after.checkpoint {
            self.phase = SinkPhase::Checkpointing(CheckpointCause::Interval(Resume::Poll));
            SinkStep::only(SinkAct::Checkpoint)
        } else if after.flush {
            self.phase = SinkPhase::Flushing(Some(Resume::Poll));
            let mut step = SinkStep::only(SinkAct::Flush);
            step.tune = Some(self.task.tuner_feedback());
            step
        } else {
            self.phase = SinkPhase::Polling;
            SinkStep::only(SinkAct::Poll)
        };
        step.sweep = after.sweep;
        step
    }

    fn carry_out(
        &mut self,
        report: FailureReport,
        count: u64,
        failed: u64,
        now: u64,
        tuned: Option<Duration>,
    ) -> (r: SinkStep)
        requires
            old(self).task.wf(),
            old(self).task.room_for((count + failed) as nat),
            report.step is Retry ==> report.step->Retry_0.attempt
                <= report.step->Retry_0.max_retries,
        ensures
            final(self).wf(),
            final(self).same_setup(old(self)),
            carries_out(
                *old(self),
                progress(old(self).task),
                report,
                count,
                failed,
                now,
                tuned,
                *final(self),
                r,
            ),
            r.follow@.len() == 0,
            r.acknowledge@.len() == 0,
            r.fail@.len() == 0,
            r.advance is None,
            !r.recover,
    {
        let mut step = match report.step {
            FailureStep::Settled => {
                self.task.failures_handled(failed);
                self.go_on(count, now, tuned)
            },
            FailureStep::Abort(e) => {
                self.phase = SinkPhase::Ended;
                SinkStep::only(SinkAct::End(Err(e)))
            },
            FailureStep::Retry(round) => {
                let again = copy_outputs(&round.outputs);
                self.phase = SinkPhase::Retrying { count, failed, round };
                SinkStep::only(SinkAct::WriteAgain(again))
            },
        };
        if self.task.has_ledger {
            step.exhausted = report.exhausted;
        }
        proof {
            assert(step.exhausted@ =~= to_ledger(self.task, report.exhausted@));
        }
        step
    }

    fn batch_came(&mut self, outputs: Vec<Output>) -> (r: SinkStep)
        requires
            old(self).task.wf(),
        ensures
            final(self).wf(),
            final(self).same_setup(old(self)),
            on_received(*old(self), outputs, *final(self), r),
    {
        let batch = self.task.begin_batch(&outputs);
        let follow = copy_entries(&batch.entries);
        let kept = if self.task.keeps_outputs() {
            copy_outputs(&outputs)
        } else {
            Vec::new()
        };
        self.phase = SinkPhase::Writing { batch, kept };
        let mut step = SinkStep::only(SinkAct::Write(outputs));
        step.follow = follow;
        step
    }

    fn none_there(&mut self, now: u64, tuned: Option<Duration>) -> (r: SinkStep)
        requires
            old(self).task.wf(),
        ensures
            final(self).wf(),
            final(self).same_setup(old(self)),
            on_empty(*old(self), now, tuned, *final(self), r),
    {
        let idle = self.task.idle(now, tuned);
        if idle.checkpoint {
            self.phase = SinkPhase::Checkpointing(CheckpointCause::Interval(Resume::Wait));
            SinkStep::only(SinkAct::Checkpoint)
        } else if idle.flush {
            self.phase = SinkPhase::Flushing(Some(Resume::Wait));
            let mut step = SinkStep::only(SinkAct::Flush);
            step.tune = Some(self.task.tuner_feedback());
            step
        } else {
            self.phase = SinkPhase::Polling;
            SinkStep::only(SinkAct::Wait)
        }
    }

    fn batch_answered(
        &mut self,
        batch: InFlight,
        kept: Vec<Output>,
        result: BatchResult,
        now: u64,
        tuned: Option<Duration>,
        metrics: &mut PipelineMetrics,
    ) -> (r: SinkStep)
        requires
            old(self).task.wf(),
            old(self).task.room_for(
                (result.delivered@.len() + result.failed@.len() + 2 * batch.count) as nat,
            ),
        ensures
            final(self).wf(),
            final(self).same_setup(old(self)),
            on_written(
                *old(self),
                batch,
                kept@,
                result,
                now,
                tuned,
                *old(metrics),
                *final(self),
                *final(metrics),
                r,
            ),
    {
        let report = self.task.batch_written(&batch, &result, metrics);
        let ghost sent = *metrics;
        proof {
            assert(progress(self.task) =~= written_progress(old(self).task, batch, result));
        }
        let failed: u64 = result.failed.len() as u64;
        let mut step = if report.has_failures {
            let failures = handle_batch_failures(
                kept,
                &result.failed,
                self.task.failure_policy,
                self.max_retries,
                metrics,
            );
            let ghost said = failures;
            let step = self.carry_out(failures, batch.count, failed, now, tuned);
            proof {
                assert(failures_reported(
                    kept@,
                    result.failed@,
                    old(self).task.failure_policy,
                    old(self).max_retries,
                    sent,
                    *metrics,
                    said,
                ));
            }
            step
        } else {
            self.go_on(batch.count, now, tuned)
        };
        step.advance = report.advance;
        if self.task.has_ledger {
            step.fail = mark_each(&result.failed);
            step.acknowledge = result.delivered;
        }
        proof {
            assert(step.acknowledge@ =~= to_ledger(self.task, result.delivered@));
        }
        step
    }

    fn retry_answered(
        &mut self,
        count: u64,
        failed: u64,
        round: RetryRound,
        result: BatchResult,
        now: u64,
        tuned: Option<Duration>,
        metrics: &mut PipelineMetrics,
    ) -> (r: SinkStep)
        requires
            old(self).task.wf(),
            old(self).task.room_for((count + failed) as nat),
            round.attempt <= round.max_retries,
        ensures
            final(self).wf(),
            final(self).same_setup(old(self)),
            on_written_again(
                *old(self),
                count,
                failed,
                round,
                result,
                now,
                tuned,
                *old(metrics),
                *final(self),
                *final(metrics),
                r,
            ),
    {
        let report = retry_finished(round, &result, metrics);
        let ghost said = report;
        let mut step = self.carry_out(report, count, failed, now, tuned);
        proof {
            assert(retry_reported(round, result, *old(metrics), *metrics, said));
        }
        if self.task.has_ledger {
            step.acknowledge = result.delivered;
        }
        proof {
            assert(step.acknowledge@ =~= to_ledger(self.task, result.delivered@));
        }
        step
    }

    fn flush_answered(&mut self, resume: Option<Resume>, metrics: &mut PipelineMetrics) -> (r:
        SinkStep)
        requires
            old(self).task.wf(),
            old(self).task.room_for(old(self).task.pending_ids@.len()),
        ensures
            final(self).wf(),
            final(self).same_setup(old(self)),
            on_flushed(*old(self), resume, *old(metrics), *final(self), *final(metrics), r),
    {
        let credited = self.task.credit_pending_on_flush(metrics);
        let act = match resume {
            Some(resume) => {
                self.phase = SinkPhase::Checkpointing(CheckpointCause::Flush(resume));
                SinkAct::Checkpoint
            },
            None => if self.task.final_checkpoint_due() {
                self.phase = SinkPhase::Checkpointing(CheckpointCause::End);
                SinkAct::Checkpoint
            } else {
                self.phase = SinkPhase::Ended;
                SinkAct::End(Ok(()))
            },
        };
        let mut step = SinkStep::only(act);
        if self.task.has_ledger {
            step.acknowledge = credited;
        }
        proof {
            assert(step.acknowledge@ =~= to_ledger(self.task, old(self).task.pending_ids@));
            assert(self.task.pending_ids@ =~= seq![]);
        }
        step
    }

    fn checkpoint_stored(
        &mut self,
        cause: CheckpointCause,
        answer: Result<(), AeonError>,
        now: u64,
        metrics: &mut PipelineMetrics,
    ) -> (r: SinkStep)
        requires
            old(self).task.wf(),
        ensures
            final(self).wf(),
            final(self).same_setup(old(self)),
            on_stored(
                *old(self),
                cause,
                answer,
                now,
                *old(metrics),
                *final(self),
                *final(metrics),
                r,
            ),
    {
        self.task.checkpoint_answered(&answer, metrics);
        let (recover, sweep, act) = match cause {
            CheckpointCause::Interval(resume) => {
                self.task.checkpoint_done(now);
                self.phase = SinkPhase::Polling;
                (false, false, Self::resume(resume))
            },
            CheckpointCause::Flush(resume) => {
                let recover = self.task.flush_done(now);
                self.phase = SinkPhase::Polling;
                (recover, true, Self::resume(resume))
            },
            CheckpointCause::End => {
                self.phase = SinkPhase::Ended;
                (false, true, SinkAct::End(Ok(())))
            },
        };
        let mut step = SinkStep::only(act);
        step.sweep = sweep;
        step.recover = recover;
        step
    }

    fn resume(resume: Resume) -> (r: SinkAct)
        ensures
            act_of(resume, r),
    {
        match resume {
            Resume::Poll => SinkAct::Poll,
            Resume::Wait => SinkAct::Wait,
        }
    }

    fn break_off(&mut self, error: AeonError) -> (r: SinkStep)
        requires
            old(self).task.wf(),
        ensures
            final(self).wf(),
            final(self).task == old(self).task,
            final(self).max_retries == old(self).max_retries,
            final(self).phase is Ended,
            r.quiet(),
            r.act == SinkAct::End(Err(error)),
    {
        self.phase = SinkPhase::Ended;
        SinkStep::only(SinkAct::End(Err(error)))
    }

    /// Takes note of what has happened at clock reading `now`, and says what is to be done next.
    pub fn next(
        &mut self,
        event: SinkEvent,
        now: u64,
        tuned: Option<Duration>,
        metrics: &mut PipelineMetrics,
    ) -> (r: SinkStep)
        requires
            old(self).wf(),
            old(self).expects(event),
            old(self).task.room_for(old(self).growth(event)),
        ensures
            final(self).wf(),
            reacts(
                *old(self),
                event,
                now,
                tuned,
                *old(metrics),
                *final(self),
                *final(metrics),
                r,
            ),
    {
        let mut phase = SinkPhase::Ended;
        std::mem::swap(&mut self.phase, &mut phase);
        match (phase, event) {
            (SinkPhase::Polling, SinkEvent::Received(outputs)) => self.batch_came(outputs),
            (SinkPhase::Polling, SinkEvent::Empty) => self.none_there(now, tuned),
            (SinkPhase::Polling, SinkEvent::Closed) => {
                self.phase = SinkPhase::Flushing(None);
                SinkStep::only(SinkAct::Flush)
            },
            (SinkPhase::Writing { batch, kept }, SinkEvent::Written(Ok(result))) => {
                self.batch_answered(batch, kept, result, now, tuned, metrics)
            },
            (SinkPhase::Writing { batch, .. }, SinkEvent::Written(Err(e))) => {
                let fail = mark_all(&batch.entries, e.message());
                let mut step = self.break_off(e);
                step.fail = fail;
                step
            },
            (SinkPhase::Retrying { count, failed, round }, SinkEvent::Written(Ok(result))) => {
                self.retry_answered(count, failed, round, result, now, tuned, metrics)
            },
            (SinkPhase::Flushing(resume), SinkEvent::Flushed(Ok(()))) => {
                self.flush_answered(resume, metrics)
            },
            (_, SinkEvent::Written(Err(e))) | (_, SinkEvent::Flushed(Err(e))) => self.break_off(e),
            (SinkPhase::Storing(cause), SinkEvent::Stored(answer)) => {
                self.checkpoint_stored(cause, answer, now, metrics)
            },
            _ => SinkStep::only(SinkAct::Poll),
        }
    }

    /// Makes the checkpoint that is due, where a store for checkpoints is present.
    pub fn checkpoint(
        &mut self,
        ledger: Option<LedgerSnapshot>,
        tracker: Option<&AckSeqTracker>,
    ) -> (r: Option<CheckpointRecord>)
        requires
            old(self).wf(),
            old(self).phase is Checkpointing,
            tracker is Some ==> tracker->0.wf(),
        ensures
            final(self).wf(),
            final(self).task == old(self).task,
            final(self).max_retries == old(self).max_retries,
            final(self).phase == SinkPhase::Storing(old(self).phase->Checkpointing_0),
            checkpoint_of(old(self).task, ledger, tracker, r),
    {
        let mut phase = SinkPhase::Ended;
        std::mem::swap(&mut self.phase, &mut phase);
        let cause = match phase {
            SinkPhase::Checkpointing(cause) => cause,
            _ => CheckpointCause::End,
        };
        self.phase = SinkPhase::Storing(cause);
        self.task.checkpoint(ledger, tracker)
    }
}

/// Checkpoints count as written exactly as often as a store took one, and what a refused one was
/// to cover stays counted for the next.
pub proof fn law_only_stored_checkpoints_count(
    before: SinkRun,
    event: SinkEvent,
    now: u64,
    tuned: Option<Duration>,
    m0: PipelineMetrics,
    after: SinkRun,
    m1: PipelineMetrics,
    step: SinkStep,
)
    requires
        reacts(before, event, now, tuned, m0, after, m1, step),
    ensures
        m1.checkpoints_written == (if before.task.has_writer && event is Stored
            && event->Stored_0 is Ok {
            m0.checkpoints_written.wrapping_add(1)
        } else {
            m0.checkpoints_written
        }),
        event matches SinkEvent::Stored(Err(_)) ==> after.task.delivered_since_checkpoint
            == before.task.delivered_since_checkpoint && after.task.failed_since_checkpoint
            == before.task.failed_since_checkpoint,
{
    assert(progress(after.task).delivered == after.task.delivered_since_checkpoint);
    assert(progress(after.task).failed == after.task.failed_since_checkpoint);
}

/// The last flush comes only once no batch will come and none is left in the ring.
pub proof fn law_the_last_flush_follows_the_last_batch(
    before: SinkRun,
    event: SinkEvent,
    now: u64,
    tuned: Option<Duration>,
    m0: PipelineMetrics,
    after: SinkRun,
    m1: PipelineMetrics,
    step: SinkStep,
)
    requires
        reacts(before, event, now, tuned, m0, after, m1, step),
        after.phase == SinkPhase::Flushing(None),
    ensures
        event is Closed,
        step.act is Flush,
{
}

/// A stage that ends well leaves nothing that waits to be credited.
pub proof fn law_a_clean_end_credits_everything(
    before: SinkRun,
    event: SinkEvent,
    now: u64,
    tuned: Option<Duration>,
    m0: PipelineMetrics,
    after: SinkRun,
    m1: PipelineMetrics,
    step: SinkStep,
)
    requires
        before.wf(),
        reacts(before, event, now, tuned, m0, after, m1, step),
        step.act == SinkAct::End(Ok(())),
    ensures
        after.task.pending_ids@.len() == 0,
{
    assert(progress(after.task).pending_ids == after.task.pending_ids@);
}

/// The ledger hears of every output before the output is handed to the sink.
pub proof fn law_the_ledger_hears_first(
    before: SinkRun,
    event: SinkEvent,
    now: u64,
    tuned: Option<Duration>,
    m0: PipelineMetrics,
    after: SinkRun,
    m1: PipelineMetrics,
    step: SinkStep,
)
    requires
        reacts(before, event, now, tuned, m0, after, m1, step),
        step.act is Write,
    ensures
        step.follow@ == to_ledger(before.task, tracked_of(step.act->Write_0@)),
{
}

/// The watermark of a stage never falls, and is recorded whenever it rises.
pub proof fn law_the_watermark_never_falls(
    before: SinkRun,
    event: SinkEvent,
    now: u64,
    tuned: Option<Duration>,
    m0: PipelineMetrics,
    after: SinkRun,
    m1: PipelineMetrics,
    step: SinkStep,
)
    requires
        reacts(before, event, now, tuned, m0, after, m1, step),
    ensures
        after.task.max_acked_seq >= before.task.max_acked_seq,
        after.task.max_acked_seq > before.task.max_acked_seq ==> step.advance == Some(
            after.task.max_acked_seq,
        ),
{
    assert(progress(after.task).max_acked_seq == after.task.max_acked_seq);
}

/// Outputs that are written again are the next attempt at those of the attempt before.
pub proof fn law_attempts_follow_each_other(
    before: SinkRun,
    event: SinkEvent,
    now: u64,
    tuned: Option<Duration>,
    m0: PipelineMetrics,
    after: SinkRun,
    m1: PipelineMetrics,
    step: SinkStep,
)
    requires
        before.wf(),
        reacts(before, event, now, tuned, m0, after, m1, step),
        before.phase is Retrying,
        after.phase is Retrying,
    ensures
        follows(before.phase->round, after.phase->round),
{
    match event {
        SinkEvent::Written(Ok(result)) => {
            assert(after.phase->round.outputs@ == outputs_to_retry(
                before.phase->round.outputs@,
                result.failed@,
            ));
        },
        _ => {},
    }
}

/// A batch is written as it came, and where refused outputs are written again a copy of each is
/// kept. The ledger, where there is one, follows every output that knows its event, under the
/// output's own partition and offset.
pub proof fn law_a_batch_is_followed_and_written(
    before: SinkRun,
    outputs: Vec<Output>,
    now: u64,
    tuned: Option<Duration>,
    m0: PipelineMetrics,
    after: SinkRun,
    m1: PipelineMetrics,
    step: SinkStep,
    i: int,
)
    requires
        before.phase is Polling,
        reacts(before, SinkEvent::Received(outputs), now, tuned, m0, after, m1, step),
        0 <= i < outputs@.len(),
    ensures
        step.act == SinkAct::Write(outputs),
        m1 == m0,
        after.phase is Writing,
        after.phase->batch.count == outputs@.len(),
        before.task.failure_policy == BatchFailurePolicy::RetryFailed ==> {
            &&& after.phase->kept@.len() == outputs@.len()
            &&& after.phase->kept@[i].source_event_id == outputs@[i].source_event_id
            &&& after.phase->kept@[i].payload@ == outputs@[i].payload@
            &&& after.phase->kept@[i].destination@ == outputs@[i].destination@
            &&& after.phase->kept@[i].key is Some <==> outputs@[i].key is Some
            &&& outputs@[i].key is Some ==> after.phase->kept@[i].key->0@ == outputs@[i].key->0@
        },
        !before.task.has_ledger ==> step.follow@.len() == 0,
        before.task.has_ledger && outputs@[i].source_event_id is Some ==> exists|k: int|
            0 <= k < step.follow@.len() && {
                let e = #[trigger] step.follow@[k];
                &&& e.event_id == outputs@[i].source_event_id->0
                &&& e.partition == (if outputs@[i].source_partition is Some {
                    outputs@[i].source_partition->0
                } else {
                    0
                })
                &&& e.offset == (if outputs@[i].source_offset is Some {
                    outputs@[i].source_offset->0
                } else {
                    0
                })
            },
{
    if before.task.failure_policy == BatchFailurePolicy::RetryFailed {
        assert(after.phase->kept@[i].same_as(outputs@[i]));
    }
    if before.task.has_ledger && outputs@[i].source_event_id is Some {
        let at = law_the_ledger_hears_of_each_output(outputs@);
        let k = choose|k: int| 0 <= k < at.len() && at[k] == i;
        assert(outputs@[at[k]] == outputs@[i]);
        assert(step.follow@[k] == tracked_of(outputs@)[k]);
    }
}

/// What the sink says of a batch is passed on: the ledger hears of every event that was delivered
/// and of every one that failed, with its reason; what was delivered counts as sent; and what the
/// sink took without confirming waits for a flush.
pub proof fn law_what_the_sink_says_is_passed_on(
    before: SinkRun,
    result: BatchResult,
    now: u64,
    tuned: Option<Duration>,
    m0: PipelineMetrics,
    after: SinkRun,
    m1: PipelineMetrics,
    step: SinkStep,
)
    requires
        before.phase is Writing,
        reacts(before, SinkEvent::Written(Ok(result)), now, tuned, m0, after, m1, step),
    ensures
        step.acknowledge@ == (if before.task.has_ledger {
            result.delivered@
        } else {
            Seq::<u128>::empty()
        }),
        before.task.has_ledger ==> {
            &&& step.fail@.len() == result.failed@.len()
            &&& forall|i: int|
                0 <= i < result.failed@.len() ==> (#[trigger] step.fail@[i]).0
                    == result.failed@[i].0 && step.fail@[i].1@ == result.failed@[i].1@
        },
        !before.task.has_ledger ==> step.fail@.len() == 0,
        m1.outputs_sent == m0.outputs_sent.wrapping_add(result.delivered@.len() as u64),
        m1.checkpoints_written == m0.checkpoints_written,
        m1.events_received == m0.events_received,
        m1.events_processed == m0.events_processed,
        after.task.pending_ids@ == before.task.pending_ids@ + result.pending@,
        after.task.delivered_since_checkpoint == before.task.delivered_since_checkpoint
            + result.delivered@.len(),
        after.task.acked_since_last_flush == before.task.acked_since_last_flush
            + result.delivered@.len(),
        after.task.events_since_last_flush == before.task.events_since_last_flush
            + before.phase->batch.count,
        result.failed@.len() == 0 ==> after.task.failed_since_checkpoint
            == before.task.failed_since_checkpoint && m1.events_failed == m0.events_failed,
{
    assert(progress(after.task).pending_ids == after.task.pending_ids@);
    assert(progress(after.task).delivered == after.task.delivered_since_checkpoint);
    assert(progress(after.task).acked == after.task.acked_since_last_flush);
    assert(progress(after.task).events == after.task.events_since_last_flush);
    assert(progress(after.task).failed == after.task.failed_since_checkpoint);
}

/// The watermark follows the events that were delivered: with acknowledgements followed, it is at
/// least the number of each of them, and it moves to nothing but the number of one of them.
pub proof fn law_the_watermark_follows_deliveries(
    before: SinkRun,
    result: BatchResult,
    now: u64,
    tuned: Option<Duration>,
    m0: PipelineMetrics,
    after: SinkRun,
    m1: PipelineMetrics,
    step: SinkStep,
    i: int,
)
    requires
        before.phase is Writing,
        reacts(before, SinkEvent::Written(Ok(result)), now, tuned, m0, after, m1, step),
    ensures
        after.task.max_acked_seq >= before.task.max_acked_seq,
        !before.task.tracks_acks ==> after.task.max_acked_seq == before.task.max_acked_seq,
        before.task.tracks_acks && 0 <= i < result.delivered@.len()
            && before.phase->batch.seqs@.contains_key(result.delivered@[i])
            ==> after.task.max_acked_seq >= before.phase->batch.seqs@[result.delivered@[i]],
        after.task.max_acked_seq > before.task.max_acked_seq ==> exists|k: int|
            0 <= k < result.delivered@.len() && before.phase->batch.seqs@.contains_pair(
                #[trigger] result.delivered@[k],
                after.task.max_acked_seq,
            ),
        step.advance == (if after.task.max_acked_seq > before.task.max_acked_seq {
            Some(after.task.max_acked_seq)
        } else {
            None
        }),
{
    let seqs = before.phase->batch.seqs@;
    assert(progress(after.task).max_acked_seq == after.task.max_acked_seq);
    law_the_watermark_is_of_a_delivered_event(seqs, result.delivered@);
    if 0 <= i < result.delivered@.len() && seqs.contains_key(result.delivered@[i]) {
        law_highest_covers_delivered(seqs, result.delivered@, i);
    }
    if after.task.max_acked_seq > before.task.max_acked_seq {
        let k = choose|k: int|
            0 <= k < result.delivered@.len() && seqs.contains_key(#[trigger] result.delivered@[k])
                && seqs[result.delivered@[k]] == highest_of(seqs, result.delivered@);
        assert(seqs.contains_pair(result.delivered@[k], after.task.max_acked_seq));
    }
}

/// Where a batch failed in part, what is kept of the events that failed is written again under a
/// policy that says so while an attempt is left; otherwise the failures count, and the stage goes
/// on or, under a policy that stops at failures, ends.
pub proof fn law_what_failed_is_written_again(
    before: SinkRun,
    result: BatchResult,
    now: u64,
    tuned: Option<Duration>,
    m0: PipelineMetrics,
    after: SinkRun,
    m1: PipelineMetrics,
    step: SinkStep,
    i: int,
    j: int,
)
    requires
        before.phase is Writing,
        reacts(before, SinkEvent::Written(Ok(result)), now, tuned, m0, after, m1, step),
        0 <= j < result.failed@.len(),
    ensures
        before.task.failure_policy == BatchFailurePolicy::RetryFailed && before.max_retries > 0
            && 0 <= i < before.phase->kept@.len() && before.phase->kept@[i].source_event_id == Some(
            result.failed@[j].0,
        ) ==> {
            &&& step.act is WriteAgain
            &&& after.phase is Retrying
            &&& after.phase->round.attempt == 1
            &&& after.phase->round.max_retries == before.max_retries
            &&& after.phase->round.outputs@.contains(before.phase->kept@[i])
            &&& m1.events_failed == m0.events_failed
            &&& exists|k: int|
                0 <= k < step.act->WriteAgain_0@.len() && (
                #[trigger] step.act->WriteAgain_0@[k]).same_as(before.phase->kept@[i])
        },
        before.task.failure_policy == BatchFailurePolicy::SkipToDlq ==> {
            &&& step.act !is WriteAgain
            &&& step.act !is End
            &&& m1.events_failed == m0.events_failed.wrapping_add(result.failed@.len() as u64)
            &&& after.task.failed_since_checkpoint == before.task.failed_since_checkpoint
                + result.failed@.len()
        },
        before.task.failure_policy == BatchFailurePolicy::FailBatch ==> {
            &&& step.act is End
            &&& step.act->End_0 is Err
            &&& m1.events_failed == m0.events_failed.wrapping_add(result.failed@.len() as u64)
        },
{
    let kept = before.phase->kept@;
    let p = written_progress(before.task, before.phase->batch, result);
    let sent = PipelineMetrics {
        outputs_sent: m0.outputs_sent.wrapping_add(result.delivered@.len() as u64),
        ..m0
    };
    assert(result.failed.len() == result.failed@.len());
    assert(progress(after.task).failed == after.task.failed_since_checkpoint);
    let report = choose|report: FailureReport|
        {
            &&& #[trigger] failures_reported(
                kept,
                result.failed@,
                before.task.failure_policy,
                before.max_retries,
                sent,
                m1,
                report,
            )
            &&& carries_out(
                before,
                p,
                report,
                before.phase->batch.count,
                result.failed@.len() as u64,
                now,
                tuned,
                after,
                step,
            )
        };
    if before.task.failure_policy == BatchFailurePolicy::RetryFailed && before.max_retries > 0 && 0
        <= i < kept.len() && kept[i].source_event_id == Some(result.failed@[j].0) {
        law_a_failed_output_is_written_again(
            kept,
            result.failed@,
            before.max_retries,
            sent,
            m1,
            report,
            i,
            j,
        );
        let round = report.step->Retry_0;
        let k = choose|k: int| 0 <= k < round.outputs@.len() && round.outputs@[k] == kept[i];
        assert(step.act->WriteAgain_0@[k].same_as(round.outputs@[k]));
    }
}

/// What the sink says of outputs that were written again: what was delivered counts as sent and the
/// ledger hears of it; while an attempt is left, what failed again is written once more; with the
/// last one it counts as failed, and the ledger hears of it and why.
pub proof fn law_what_a_retry_leads_to(
    before: SinkRun,
    result: BatchResult,
    now: u64,
    tuned: Option<Duration>,
    m0: PipelineMetrics,
    after: SinkRun,
    m1: PipelineMetrics,
    step: SinkStep,
)
    requires
        before.wf(),
        before.phase is Retrying,
        reacts(before, SinkEvent::Written(Ok(result)), now, tuned, m0, after, m1, step),
    ensures
        m1.outputs_sent == m0.outputs_sent.wrapping_add(result.delivered@.len() as u64),
        before.task.has_ledger ==> step.acknowledge@ == result.delivered@,
        step.act is WriteAgain <==> result.failed@.len() > 0 && before.phase->round.attempt
            < before.phase->round.max_retries,
        step.act !is End,
        step.act is WriteAgain ==> {
            &&& after.phase is Retrying
            &&& after.phase->round.attempt == before.phase->round.attempt + 1
            &&& m1.events_failed == m0.events_failed
            &&& forall|i: int, j: int|
                0 <= i < before.phase->round.outputs@.len() && 0 <= j < result.failed@.len() && (
                #[trigger] before.phase->round.outputs@[i]).source_event_id == Some(
                    (#[trigger] result.failed@[j]).0,
                ) ==> after.phase->round.outputs@.contains(before.phase->round.outputs@[i])
        },
        step.act !is WriteAgain ==> m1.events_failed == m0.events_failed.wrapping_add(
            result.failed@.len() as u64,
        ),
        step.act !is WriteAgain && result.failed@.len() > 0 && before.task.has_ledger ==> {
            &&& step.exhausted@.len() == result.failed@.len()
            &&& forall|j: int|
                0 <= j < result.failed@.len() ==> (#[trigger] step.exhausted@[j]).0
                    == result.failed@[j].0 && step.exhausted@[j].1@ == "retry exhausted: "@
                    + result.failed@[j].1@
        },
{
    let round = before.phase->round;
    assert(result.failed.len() == result.failed@.len());
    let report = choose|report: FailureReport|
        {
            &&& #[trigger] retry_reported(round, result, m0, m1, report)
            &&& carries_out(
                before,
                progress(before.task),
                report,
                before.phase->Retrying_count,
                before.phase->failed,
                now,
                tuned,
                after,
                step,
            )
        };
    law_attempts_are_used_up(round, result, m0, m1, report);
}

/// A flush credits everything that waited for it: it counts as sent, the ledger hears of each, and
/// nothing waits any more. A checkpoint follows; at the end only where something has happened
/// since the last one, and otherwise the stage ends well.
pub proof fn law_a_flush_credits_what_waited(
    before: SinkRun,
    now: u64,
    tuned: Option<Duration>,
    m0: PipelineMetrics,
    after: SinkRun,
    m1: PipelineMetrics,
    step: SinkStep,
)
    requires
        before.phase is Flushing,
        reacts(before, SinkEvent::Flushed(Ok(())), now, tuned, m0, after, m1, step),
    ensures
        m1 == (PipelineMetrics {
            outputs_sent: m0.outputs_sent.wrapping_add(before.task.pending_ids@.len() as u64),
            ..m0
        }),
        after.task.pending_ids@.len() == 0,
        before.task.has_ledger ==> step.acknowledge@ == before.task.pending_ids@,
        !before.task.has_ledger ==> step.acknowledge@.len() == 0,
        after.task.delivered_since_checkpoint == before.task.delivered_since_checkpoint
            + before.task.pending_ids@.len(),
        after.task.failed_since_checkpoint == before.task.failed_since_checkpoint,
        after.task.max_acked_seq == before.task.max_acked_seq,
        step.act is Checkpoint <==> before.phase->Flushing_0 is Some
            || after.task.delivered_since_checkpoint > 0 || after.task.failed_since_checkpoint > 0,
        !(step.act is Checkpoint) ==> step.act == SinkAct::End(Ok(())),
{
    assert(progress(after.task).pending_ids == after.task.pending_ids@);
    assert(progress(after.task).delivered == after.task.delivered_since_checkpoint);
    assert(progress(after.task).failed == after.task.failed_since_checkpoint);
    assert(progress(after.task).max_acked_seq == after.task.max_acked_seq);
}

/// A checkpoint that the store has answered starts the interval anew. After a flush the counters of
/// the interval start anew too, the body stores are swept, and every sixteenth time the store is
/// asked to return to its primary. The last one ends the stage well.
pub proof fn law_what_a_checkpoint_leads_to(
    before: SinkRun,
    answer: Result<(), AeonError>,
    now: u64,
    tuned: Option<Duration>,
    m0: PipelineMetrics,
    after: SinkRun,
    m1: PipelineMetrics,
    step: SinkStep,
)
    requires
        before.wf(),
        before.phase is Storing,
        reacts(before, SinkEvent::Stored(answer), now, tuned, m0, after, m1, step),
    ensures
        before.task.has_writer && answer is Ok ==> {
            &&& m1.checkpoints_written == m0.checkpoints_written.wrapping_add(1)
            &&& after.task.delivered_since_checkpoint == 0
            &&& after.task.failed_since_checkpoint == 0
        },
        !(before.task.has_writer && answer is Ok) ==> {
            &&& m1 == m0
            &&& after.task.delivered_since_checkpoint == before.task.delivered_since_checkpoint
            &&& after.task.failed_since_checkpoint == before.task.failed_since_checkpoint
        },
        m1.outputs_sent == m0.outputs_sent,
        after.task.pending_ids@ == before.task.pending_ids@,
        after.task.max_acked_seq == before.task.max_acked_seq,
        step.acknowledge@.len() == 0,
        before.phase->Storing_0 matches CheckpointCause::Interval(then) ==> {
            &&& after.task.last_flush == now
            &&& after.task.pending_count == before.task.pending_count
            &&& !step.sweep && !step.recover
            &&& (then == Resume::Poll ==> step.act is Poll)
            &&& (then == Resume::Wait ==> step.act is Wait)
        },
        before.phase->Storing_0 matches CheckpointCause::Flush(then) ==> {
            &&& after.task.last_flush == now
            &&& after.task.pending_count == 0
            &&& after.task.acked_since_last_flush == 0
            &&& after.task.events_since_last_flush == 0
            &&& step.sweep
            &&& step.recover <==> before.task.flushes_since_recovery_attempt == 15
            &&& after.task.flushes_since_recovery_attempt == (
            before.task.flushes_since_recovery_attempt + 1) % 16
            &&& (then == Resume::Poll ==> step.act is Poll)
            &&& (then == Resume::Wait ==> step.act is Wait)
        },
        before.phase->Storing_0 is End ==> step.sweep && step.act == SinkAct::End(Ok(())),
{
    assert(progress(after.task).pending_ids == after.task.pending_ids@);
    assert(progress(after.task).delivered == after.task.delivered_since_checkpoint);
    assert(progress(after.task).failed == after.task.failed_since_checkpoint);
    assert(progress(after.task).max_acked_seq == after.task.max_acked_seq);
    assert(progress(after.task).last_flush == after.task.last_flush);
    assert(progress(after.task).pending_count == after.task.pending_count);
    assert(progress(after.task).acked == after.task.acked_since_last_flush);
    assert(progress(after.task).events == after.task.events_since_last_flush);
    assert(progress(after.task).flushes == after.task.flushes_since_recovery_attempt);
}

/// What follows a batch without failures. A stage that waits for delivery writes a checkpoint once
/// its interval has passed and something was delivered. A stage that does not wait counts the
/// batch as pending and flushes once its interval has passed or enough outputs are pending, and
/// the tuner hears what was written and acknowledged.
pub proof fn law_what_follows_a_batch(
    before: SinkRun,
    result: BatchResult,
    now: u64,
    tuned: Option<Duration>,
    m0: PipelineMetrics,
    after: SinkRun,
    m1: PipelineMetrics,
    step: SinkStep,
)
    requires
        before.phase is Writing,
        reacts(before, SinkEvent::Written(Ok(result)), now, tuned, m0, after, m1, step),
        result.failed@.len() == 0,
    ensures
        ({
            let task = before.task;
            let interval = if tuned is Some {
                tuned->0
            } else {
                task.flush_interval
            };
            let passed = now - task.last_flush >= interval.secs * 1_000_000_000 + interval.nanos
                || interval.secs == 0 && interval.nanos == 0;
            let own = task.flush_interval;
            let own_passed = now - task.last_flush >= own.secs * 1_000_000_000 + own.nanos
                || own.secs == 0 && own.nanos == 0;
            if task.delivery_strategy == DeliveryStrategy::UnorderedBatch {
                &&& after.task.pending_count == task.pending_count + before.phase->batch.count
                &&& step.act is Flush <==> passed || task.pending_count + before.phase->batch.count
                    >= task.max_pending
                &&& !(step.act is Flush) ==> step.act is Poll
                &&& !step.sweep
                &&& step.act is Flush ==> step.tune == Some(
                    (after.task.events_since_last_flush, after.task.acked_since_last_flush),
                )
                &&& !(step.act is Flush) ==> step.tune is None
            } else {
                &&& after.task.pending_count == task.pending_count
                &&& step.act is Checkpoint <==> own_passed && task.delivered_since_checkpoint
                    + result.delivered@.len() > 0
                &&& !(step.act is Checkpoint) ==> step.act is Poll
                &&& step.sweep == task.has_capacity
                &&& step.tune is None
            }
        }),
        after.task.last_flush == before.task.last_flush,
{
    assert(progress(after.task).pending_count == after.task.pending_count);
    assert(progress(after.task).last_flush == after.task.last_flush);
    assert(progress(after.task).acked == after.task.acked_since_last_flush);
    assert(progress(after.task).events == after.task.events_since_last_flush);
}

/// What a stage does while no batch is there: a checkpoint or a flush once its interval has passed
/// and there is something to cover, and otherwise nothing.
pub proof fn law_what_an_idle_stage_does(
    before: SinkRun,
    now: u64,
    tuned: Option<Duration>,
    m0: PipelineMetrics,
    after: SinkRun,
    m1: PipelineMetrics,
    step: SinkStep,
)
    requires
        before.phase is Polling,
        reacts(before, SinkEvent::Empty, now, tuned, m0, after, m1, step),
    ensures
        ({
            let task = before.task;
            let interval = if tuned is Some {
                tuned->0
            } else {
                task.flush_interval
            };
            let passed = now - task.last_flush >= interval.secs * 1_000_000_000 + interval.nanos
                || interval.secs == 0 && interval.nanos == 0;
            let own = task.flush_interval;
            let own_passed = now - task.last_flush >= own.secs * 1_000_000_000 + own.nanos
                || own.secs == 0 && own.nanos == 0;
            let unordered = task.delivery_strategy == DeliveryStrategy::UnorderedBatch;
            &&& step.act is Flush <==> unordered && passed && task.pending_count > 0
            &&& step.act is Checkpoint <==> !unordered && own_passed
                && task.delivered_since_checkpoint > 0
            &&& !(step.act is Flush) && !(step.act is Checkpoint) ==> step.act is Wait
        }),
        after.task == before.task,
        m1 == m0,
        step.follow@.len() == 0 && step.acknowledge@.len() == 0 && step.fail@.len() == 0,
        !step.sweep && !step.recover && step.advance is None,
{
}

/// A sink that fails ends the stage with its own error, and nothing is counted. Where it was given
/// a batch, the ledger hears that each event of it failed, and why.
pub proof fn law_a_sink_ends_the_stage_with_its_error(
    before: SinkRun,
    event: SinkEvent,
    now: u64,
    tuned: Option<Duration>,
    m0: PipelineMetrics,
    after: SinkRun,
    m1: PipelineMetrics,
    step: SinkStep,
    e: AeonError,
)
    requires
        before.expects(event),
        reacts(before, event, now, tuned, m0, after, m1, step),
        event == SinkEvent::Written(Err(e)) || event == SinkEvent::Flushed(Err(e)),
    ensures
        step.act == SinkAct::End(Err(e)),
        m1 == m0,
        step.acknowledge@.len() == 0,
        before.phase matches SinkPhase::Writing { batch, .. } ==> {
            &&& step.fail@.len() == batch.entries@.len()
            &&& forall|i: int|
                0 <= i < batch.entries@.len() ==> (#[trigger] step.fail@[i]).0
                    == batch.entries@[i].event_id && step.fail@[i].1@ == e.text()
        },
{
}

/// Whatever happens, a stage stays set up as it was.
pub proof fn law_a_stage_stays_as_it_was_set_up(
    before: SinkRun,
    event: SinkEvent,
    now: u64,
    tuned: Option<Duration>,
    m0: PipelineMetrics,
    after: SinkRun,
    m1: PipelineMetrics,
    step: SinkStep,
)
    requires
        reacts(before, event, now, tuned, m0, after, m1, step),
    ensures
        after.max_retries == before.max_retries,
        after.task.delivery_strategy == before.task.delivery_strategy,
        after.task.flush_interval == before.task.flush_interval,
        after.task.max_pending == before.task.max_pending,
        after.task.failure_policy == before.task.failure_policy,
        after.task.has_ledger == before.task.has_ledger,
        after.task.has_writer == before.task.has_writer,
        after.task.has_capacity == before.task.has_capacity,
        after.task.tracks_acks == before.task.tracks_acks,
{
}

/// What a stage waits for next is the answer to what it asks for, and it remembers how to go on:
/// after a batch it looks for the next one, without one it waits, and once nothing more will come
/// it ends.
pub proof fn law_a_stage_waits_for_the_answer(
    before: SinkRun,
    event: SinkEvent,
    now: u64,
    tuned: Option<Duration>,
    m0: PipelineMetrics,
    after: SinkRun,
    m1: PipelineMetrics,
    step: SinkStep,
)
    requires
        reacts(before, event, now, tuned, m0, after, m1, step),
    ensures
        step.act is Write ==> event is Received && after.phase is Writing,
        step.act is WriteAgain ==> event is Written && after.phase is Retrying,
        step.act is Poll || step.act is Wait ==> after.phase is Polling,
        step.act is End ==> after.phase is Ended,
        step.act is Flush ==> after.phase == SinkPhase::Flushing(
            match event {
                SinkEvent::Empty => Some(Resume::Wait),
                SinkEvent::Closed => None,
                _ => Some(Resume::Poll),
            },
        ),
        step.act is Checkpoint ==> after.phase == SinkPhase::Checkpointing(
            match event {
                SinkEvent::Empty => CheckpointCause::Interval(Resume::Wait),
                SinkEvent::Flushed(_) => match before.phase->Flushing_0 {
                    Some(then) => CheckpointCause::Flush(then),
                    None => CheckpointCause::End,
                },
                _ => CheckpointCause::Interval(Resume::Poll),
            },
        ),
        event is Received ==> step.act is Write,
        event is Closed ==> step.act is Flush && after.task == before.task && m1 == m0,
{
}

/// Nobody is told anything without a cause: outputs are followed as they come, events are
/// acknowledged and failed on the sink's word, the watermark moves with a batch, the stores are
/// swept after a batch or a checkpoint, and the tuner hears of flushes.
pub proof fn law_nobody_is_told_without_a_cause(
    before: SinkRun,
    event: SinkEvent,
    now: u64,
    tuned: Option<Duration>,
    m0: PipelineMetrics,
    after: SinkRun,
    m1: PipelineMetrics,
    step: SinkStep,
)
    requires
        reacts(before, event, now, tuned, m0, after, m1, step),
    ensures
        step.follow@.len() > 0 ==> event is Received,
        step.acknowledge@.len() > 0 ==> (event matches SinkEvent::Written(answer) && answer is Ok)
            || (event matches SinkEvent::Flushed(answer) && answer is Ok),
        step.fail@.len() > 0 ==> before.phase is Writing && event is Written,
        step.exhausted@.len() > 0 ==> (event matches SinkEvent::Written(answer) && answer is Ok),
        step.advance is Some ==> before.phase is Writing && (event matches SinkEvent::Written(
            answer,
        ) && answer is Ok),
        step.sweep ==> event is Written || event is Stored,
        step.recover ==> event is Stored,
        step.tune is Some ==> step.act is Flush && event !is Closed,
        step.tune is None && step.act is Flush ==> event is Closed,
{
}

/// A batch that has come is in flight: as many outputs, what the ledger follows, and the numbers
/// of its events where acknowledgements are followed. Copies are kept only where they may be
/// needed. Nothing is counted yet.
pub proof fn law_a_received_batch_is_in_flight(
    before: SinkRun,
    outputs: Vec<Output>,
    now: u64,
    tuned: Option<Duration>,
    m0: PipelineMetrics,
    after: SinkRun,
    m1: PipelineMetrics,
    step: SinkStep,
)
    requires
        before.phase is Polling,
        reacts(before, SinkEvent::Received(outputs), now, tuned, m0, after, m1, step),
    ensures
        after.task == before.task,
        after.phase->batch.count == outputs@.len(),
        after.phase->batch.entries@ == step.follow@,
        before.task.has_ledger ==> step.follow@ == tracked_of(outputs@),
        before.task.tracks_acks ==> after.phase->batch.seqs@ == l2_seqs_of(outputs@),
        !before.task.tracks_acks ==> after.phase->batch.seqs@ == Map::<u128, u64>::empty(),
        before.task.failure_policy == BatchFailurePolicy::RetryFailed ==> {
            &&& after.phase->kept@.len() == outputs@.len()
            &&& forall|i: int|
                0 <= i < outputs@.len() ==> (#[trigger] after.phase->kept@[i]).same_as(outputs@[i])
        },
        before.task.failure_policy != BatchFailurePolicy::RetryFailed ==> after.phase->kept@.len()
            == 0,
        step.acknowledge@.len() == 0 && step.fail@.len() == 0 && step.exhausted@.len() == 0,
        step.advance is None && !step.sweep && !step.recover && step.tune is None,
{
}

/// What failed in a batch is dealt with as the report on it says: the ledger hears of what has no
/// retry left, what is to be written again is, and where the report ends the stage, it ends with
/// that error. The counters grow by what failed only once that is settled.
pub proof fn law_failures_are_dealt_with_as_reported(
    before: SinkRun,
    result: BatchResult,
    now: u64,
    tuned: Option<Duration>,
    m0: PipelineMetrics,
    after: SinkRun,
    m1: PipelineMetrics,
    step: SinkStep,
) -> (report: FailureReport)
    requires
        before.phase is Writing,
        reacts(before, SinkEvent::Written(Ok(result)), now, tuned, m0, after, m1, step),
        result.failed@.len() > 0,
    ensures
        failures_reported(
            before.phase->kept@,
            result.failed@,
            before.task.failure_policy,
            before.max_retries,
            PipelineMetrics {
                outputs_sent: m0.outputs_sent.wrapping_add(result.delivered@.len() as u64),
                ..m0
            },
            m1,
            report,
        ),
        before.task.has_ledger ==> step.exhausted@ == report.exhausted@,
        !before.task.has_ledger ==> step.exhausted@.len() == 0,
        report.step is Settled <==> step.act is Poll || step.act is Checkpoint || step.act is Flush,
        report.step matches FailureStep::Abort(e) ==> step.act == SinkAct::End(Err(e)),
        report.step matches FailureStep::Retry(round) ==> {
            &&& step.act is WriteAgain
            &&& step.act->WriteAgain_0@.len() == round.outputs@.len()
            &&& forall|i: int|
                0 <= i < round.outputs@.len() ==> (#[trigger] step.act->WriteAgain_0@[i]).same_as(
                    round.outputs@[i],
                )
            &&& after.phase == SinkPhase::Retrying {
                count: before.phase->batch.count,
                failed: result.failed@.len() as u64,
                round,
            }
        },
        after.task.failed_since_checkpoint == before.task.failed_since_checkpoint + (
        if report.step is Settled {
            result.failed@.len() as u64 as int
        } else {
            0
        }),
{
    let p = written_progress(before.task, before.phase->batch, result);
    let sent = PipelineMetrics {
        outputs_sent: m0.outputs_sent.wrapping_add(result.delivered@.len() as u64),
        ..m0
    };
    let report = choose|report: FailureReport|
        {
            &&& #[trigger] failures_reported(
                before.phase->kept@,
                result.failed@,
                before.task.failure_policy,
                before.max_retries,
                sent,
                m1,
                report,
            )
            &&& carries_out(
                before,
                p,
                report,
                before.phase->batch.count,
                result.failed@.len() as u64,
                now,
                tuned,
                after,
                step,
            )
        };
    assert(progress(after.task).failed == after.task.failed_since_checkpoint);
    report
}

/// What failed again is dealt with as the report on the attempt says, in the same way. The batch
/// that is retried stays the same until it is settled.
pub proof fn law_retries_are_dealt_with_as_reported(
    before: SinkRun,
    result: BatchResult,
    now: u64,
    tuned: Option<Duration>,
    m0: PipelineMetrics,
    after: SinkRun,
    m1: PipelineMetrics,
    step: SinkStep,
) -> (report: FailureReport)
    requires
        before.phase is Retrying,
        reacts(before, SinkEvent::Written(Ok(result)), now, tuned, m0, after, m1, step),
    ensures
        retry_reported(before.phase->round, result, m0, m1, report),
        before.task.has_ledger ==> step.exhausted@ == report.exhausted@ && step.acknowledge@
            == result.delivered@,
        !before.task.has_ledger ==> step.exhausted@.len() == 0 && step.acknowledge@.len() == 0,
        report.step is Settled <==> step.act is Poll || step.act is Checkpoint || step.act is Flush,
        report.step matches FailureStep::Abort(e) ==> step.act == SinkAct::End(Err(e)),
        report.step matches FailureStep::Retry(round) ==> {
            &&& step.act is WriteAgain
            &&& step.act->WriteAgain_0@.len() == round.outputs@.len()
            &&& forall|i: int|
                0 <= i < round.outputs@.len() ==> (#[trigger] step.act->WriteAgain_0@[i]).same_as(
                    round.outputs@[i],
                )
            &&& after.phase == SinkPhase::Retrying {
                count: before.phase->Retrying_count,
                failed: before.phase->failed,
                round,
            }
        },
        after.task.failed_since_checkpoint == before.task.failed_since_checkpoint + (
        if report.step is Settled {
            before.phase->failed as int
        } else {
            0
        }),
        after.task.delivered_since_checkpoint == before.task.delivered_since_checkpoint,
        after.task.acked_since_last_flush == before.task.acked_since_last_flush,
        after.task.events_since_last_flush == before.task.events_since_last_flush,
        after.task.pending_ids@ == before.task.pending_ids@,
        after.task.max_acked_seq == before.task.max_acked_seq,
        after.task.last_flush == before.task.last_flush,
        after.task.flushes_since_recovery_attempt == before.task.flushes_since_recovery_attempt,
{
    let report = choose|report: FailureReport|
        {
            &&& #[trigger] retry_reported(before.phase->round, result, m0, m1, report)
            &&& carries_out(
                before,
                progress(before.task),
                report,
                before.phase->Retrying_count,
                before.phase->failed,
                now,
                tuned,
                after,
                step,
            )
        };
    assert(progress(after.task).failed == after.task.failed_since_checkpoint);
    assert(progress(after.task).delivered == after.task.delivered_since_checkpoint);
    assert(progress(after.task).acked == after.task.acked_since_last_flush);
    assert(progress(after.task).events == after.task.events_since_last_flush);
    assert(progress(after.task).pending_ids == after.task.pending_ids@);
    assert(progress(after.task).max_acked_seq == after.task.max_acked_seq);
    assert(progress(after.task).last_flush == after.task.last_flush);
    assert(progress(after.task).flushes == after.task.flushes_since_recovery_attempt);
    report
}

/// Once a batch is dealt with, failures or not, at once or after retries, the same follows: a
/// stage that waits for delivery sweeps the stores where it has to, and writes a checkpoint once
/// its interval has passed and something was delivered; one that does not wait counts the batch
/// as pending, and flushes once its interval has passed or enough is pending.
pub proof fn law_what_follows_a_settled_batch(
    before: SinkRun,
    result: BatchResult,
    now: u64,
    tuned: Option<Duration>,
    m0: PipelineMetrics,
    after: SinkRun,
    m1: PipelineMetrics,
    step: SinkStep,
)
    requires
        before.phase is Writing || before.phase is Retrying,
        reacts(before, SinkEvent::Written(Ok(result)), now, tuned, m0, after, m1, step),
        step.act !is WriteAgain,
        step.act !is End,
    ensures
        ({
            let task = before.task;
            let count = match before.phase {
                SinkPhase::Writing { batch, .. } => batch.count,
                SinkPhase::Retrying { count, .. } => count,
                _ => 0,
            };
            let interval = if tuned is Some {
                tuned->0
            } else {
                task.flush_interval
            };
            let passed = now - task.last_flush >= interval.secs * 1_000_000_000 + interval.nanos
                || interval.secs == 0 && interval.nanos == 0;
            let own = task.flush_interval;
            let own_passed = now - task.last_flush >= own.secs * 1_000_000_000 + own.nanos
                || own.secs == 0 && own.nanos == 0;
            if task.delivery_strategy == DeliveryStrategy::UnorderedBatch {
                &&& after.task.pending_count == task.pending_count + count
                &&& step.act is Flush <==> passed || task.pending_count + count
                    >= task.max_pending
                &&& !(step.act is Flush) ==> step.act is Poll
                &&& !step.sweep
                &&& step.act is Flush ==> step.tune == Some(
                    (after.task.events_since_last_flush, after.task.acked_since_last_flush),
                )
                &&& !(step.act is Flush) ==> step.tune is None
            } else {
                &&& after.task.pending_count == task.pending_count
                &&& step.act is Checkpoint <==> own_passed
                    && after.task.delivered_since_checkpoint > 0
                &&& !(step.act is Checkpoint) ==> step.act is Poll
                &&& step.sweep == task.has_capacity
                &&& step.tune is None
            }
        }),
{
    assert(progress(after.task).pending_count == after.task.pending_count);
    assert(progress(after.task).last_flush == after.task.last_flush);
    assert(progress(after.task).acked == after.task.acked_since_last_flush);
    assert(progress(after.task).events == after.task.events_since_last_flush);
    assert(progress(after.task).delivered == after.task.delivered_since_checkpoint);
    if before.phase is Retrying {
        let report = law_retries_are_dealt_with_as_reported(
            before,
            result,
            now,
            tuned,
            m0,
            after,
            m1,
            step,
        );
    } else if result.failed@.len() > 0 {
        let report = law_failures_are_dealt_with_as_reported(
            before,
            result,
            now,
            tuned,
            m0,
            after,
            m1,
            step,
        );
    }
}

/// What is not concerned stays: a batch starts no interval anew and counts no flush; one that is
/// not settled leaves what is pending as it was; a flush and a checkpoint change only the counters
/// that they are about.
pub proof fn law_counters_that_are_not_concerned_stay(
    before: SinkRun,
    event: SinkEvent,
    now: u64,
    tuned: Option<Duration>,
    m0: PipelineMetrics,
    after: SinkRun,
    m1: PipelineMetrics,
    step: SinkStep,
)
    requires
        before.wf(),
        reacts(before, event, now, tuned, m0, after, m1, step),
    ensures
        event !is Stored ==> after.task.last_flush == before.task.last_flush
            && after.task.flushes_since_recovery_attempt
            == before.task.flushes_since_recovery_attempt,
        event is Written && (step.act is WriteAgain || step.act is End)
            ==> after.task.pending_count == before.task.pending_count,
        event matches SinkEvent::Flushed(answer) ==> {
            &&& after.task.pending_count == before.task.pending_count
            &&& after.task.events_since_last_flush == before.task.events_since_last_flush
            &&& after.task.acked_since_last_flush == before.task.acked_since_last_flush + (
            if answer is Ok {
                before.task.pending_ids@.len() as int
            } else {
                0
            })
        },
        event is Stored && !(before.phase->Storing_0 is Flush) ==> {
            &&& after.task.pending_count == before.task.pending_count
            &&& after.task.events_since_last_flush == before.task.events_since_last_flush
            &&& after.task.acked_since_last_flush == before.task.acked_since_last_flush
            &&& after.task.flushes_since_recovery_attempt
                == before.task.flushes_since_recovery_attempt
        },
        event is Stored && before.phase->Storing_0 is End ==> after.task.last_flush
            == before.task.last_flush,
        step.act matches SinkAct::End(outcome) ==> (event matches SinkEvent::Flushed(answer) ==> (
        outcome is Ok <==> answer is Ok)),
{
    assert(progress(after.task).pending_count == after.task.pending_count);
    assert(progress(after.task).last_flush == after.task.last_flush);
    assert(progress(after.task).acked == after.task.acked_since_last_flush);
    assert(progress(after.task).events == after.task.events_since_last_flush);
    assert(progress(after.task).flushes == after.task.flushes_since_recovery_attempt);
}

} // verus!
