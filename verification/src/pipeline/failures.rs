//! What becomes of the outputs of a batch that a sink could not deliver.
use vstd::prelude::*;
use vstd::string::StringExecFns;

use crate::error::AeonError;
use crate::ids::{hyphenated, id_text};
use crate::pipeline::metrics::PipelineMetrics;
use crate::text::{decimal, join2, push_u64};
use crate::types::{BatchFailurePolicy, BatchResult, Output};

verus! {

/// Whether an id is among those of the failed events.
pub open spec fn has_failed(failed: Seq<(u128, String)>, id: u128) -> bool {
    exists|i: int| 0 <= i < failed.len() && #[trigger] failed[i].0 == id
}

/// Whether an output came from an event that failed. An output that does not know its event
/// came from none.
pub open spec fn came_from_failed(failed: Seq<(u128, String)>, o: Output) -> bool {
    o.source_event_id is Some && has_failed(failed, o.source_event_id->0)
}

/// The outputs that came from failed events, in their order.
pub open spec fn outputs_to_retry(outputs: Seq<Output>, failed: Seq<(u128, String)>) -> Seq<
    Output,
> {
    outputs.filter(|o: Output| came_from_failed(failed, o))
}

fn contains_id(failed: &Vec<(u128, String)>, id: u128) -> (r: bool)
    ensures
        r == has_failed(failed@, id),
{
    let mut i: usize = 0;
    while i < failed.len()
        invariant
            i <= failed@.len(),
            forall|j: int| 0 <= j < i ==> (#[trigger] failed@[j]).0 != id,
        decreases failed@.len() - i,
    {
        if failed[i].0 == id {
            assert(failed@[i as int].0 == id);
            return true;
        }
        i += 1;
    }
    false
}

/// Keeps the outputs that came from failed events.
pub fn select_failed(outputs: Vec<Output>, failed: &Vec<(u128, String)>) -> (r: Vec<Output>)
    ensures
        r@ == outputs_to_retry(outputs@, failed@),
{
    let ghost pred = |o: Output| came_from_failed(failed@, o);
    let ghost all = outputs@;
    let mut out: Vec<Output> = Vec::new();
    proof {
        reveal(Seq::filter);
        assert(all.take(0).filter(pred) =~= Seq::<Output>::empty());
    }
    for o in it: outputs.into_iter()
        invariant
            it.seq() == all,
            pred == (|o: Output| came_from_failed(failed@, o)),
            out@ == all.take(it.index() as int).filter(pred),
    {
        let keep = match o.source_event_id {
            Some(id) => contains_id(failed, id),
            None => false,
        };
        proof {
            reveal(Seq::filter);
            let k = it.index() as int;
            assert(all.take(k + 1).drop_last() =~= all.take(k));
            assert(all.take(k + 1).last() == o);
        }
        if keep {
            out.push(o);
        }
    }
    proof {
        assert(all.take(all.len() as int) =~= all);
    }
    out
}

/// One more attempt at writing outputs.
pub struct RetryRound {
    /// What to write.
    pub outputs: Vec<Output>,
    /// The number of this attempt, from one.
    pub attempt: u32,
    /// How many attempts there may be.
    pub max_retries: u32,
}

/// What to do about the failures of a batch.
pub enum FailureStep {
    /// Nothing more.
    Settled,
    /// Stop the pipeline with this error.
    Abort(AeonError),
    /// Wait for the configured backoff, write these outputs and report the result.
    Retry(RetryRound),
}

/// What to do about the failures of a batch, and which events the delivery ledger is to mark
/// as failed, with the reason for each.
pub struct FailureReport {
    pub step: FailureStep,
    pub exhausted: Vec<(u128, String)>,
}

/// The ledger entry of an event whose retries have run out.
pub open spec fn exhausted_reason(error: Seq<char>) -> Seq<char> {
    "retry exhausted: "@ + error
}

/// Whether `marks` are the ledger entries of failed events whose retries have run out.
pub open spec fn marks_exhausted(
    marks: Seq<(u128, String)>,
    failed: Seq<(u128, String)>,
) -> bool {
    &&& marks.len() == failed.len()
    &&& forall|i: int|
        0 <= i < failed.len() ==> (#[trigger] marks[i]).0 == failed[i].0 && marks[i].1@
            == exhausted_reason(failed[i].1@)
}

/// The message of a pipeline that stops because of failures.
pub open spec fn fail_batch_message(failed: Seq<(u128, String)>) -> Seq<char> {
    "FailBatch: "@ + decimal(failed.len()) + " events failed in batch, first: "@ + (if failed.len()
        == 0 {
        Seq::<char>::empty()
    } else {
        "event "@ + hyphenated(failed[0].0) + ": "@ + failed[0].1@
    })
}

fn exhausted_marks(failed: &Vec<(u128, String)>) -> (r: Vec<(u128, String)>)
    ensures
        marks_exhausted(r@, failed@),
{
    let mut out: Vec<(u128, String)> = Vec::new();
    let mut i: usize = 0;
    while i < failed.len()
        invariant
            i <= failed@.len(),
            out@.len() == i,
            forall|j: int|
                0 <= j < i ==> (#[trigger] out@[j]).0 == failed@[j].0 && out@[j].1@
                    == exhausted_reason(failed@[j].1@),
        decreases failed@.len() - i,
    {
        out.push((failed[i].0, join2("retry exhausted: ", failed[i].1.as_str())));
        i += 1;
    }
    out
}

fn fail_batch_error(failed: &Vec<(u128, String)>) -> (r: AeonError)
    ensures
        r is Connection,
        !r->retryable,
        r.text() == fail_batch_message(failed@),
{
    let mut message = "FailBatch: ".to_owned();
    push_u64(&mut message, failed.len() as u64);
    message.append(" events failed in batch, first: ");
    if failed.len() > 0 {
        let mut first = "event ".to_owned();
        first.append(id_text(failed[0].0).as_str());
        first.append(": ");
        first.append(failed[0].1.as_str());
        message.append(first.as_str());
    } else {
        assert(message@ =~= fail_batch_message(failed@));
    }
    AeonError::Connection { message, retryable: false }
}

/// Gives up on events: counts them, and marks each as exhausted.
pub open spec fn gave_up(
    before: PipelineMetrics,
    after: PipelineMetrics,
    failed: Seq<(u128, String)>,
    report: FailureReport,
) -> bool {
    &&& after == PipelineMetrics {
        events_failed: before.events_failed.wrapping_add(failed.len() as u64),
        ..before
    }
    &&& report.step is Settled
    &&& marks_exhausted(report.exhausted@, failed)
}

/// Writes outputs once more: counts them as retried.
pub open spec fn tries_again(
    before: PipelineMetrics,
    after: PipelineMetrics,
    outputs: Seq<Output>,
    attempt: int,
    max_retries: u32,
    report: FailureReport,
) -> bool {
    &&& after == PipelineMetrics {
        events_retried: before.events_retried.wrapping_add(outputs.len() as u64),
        ..before
    }
    &&& report.step is Retry
    &&& report.step->Retry_0.outputs@ == outputs
    &&& report.step->Retry_0.attempt == attempt
    &&& report.step->Retry_0.max_retries == max_retries
    &&& report.exhausted@.len() == 0
}

/// Whether a report is what the failures of a batch call for.
pub open spec fn failures_reported(
    original: Seq<Output>,
    failed: Seq<(u128, String)>,
    policy: BatchFailurePolicy,
    max_retries: u32,
    before: PipelineMetrics,
    after: PipelineMetrics,
    r: FailureReport,
) -> bool {
    let counted = PipelineMetrics {
        events_failed: before.events_failed.wrapping_add(failed.len() as u64),
        ..before
    };
    match policy {
        BatchFailurePolicy::FailBatch => {
            &&& after == counted
            &&& r.step is Abort
            &&& r.step->Abort_0 is Connection
            &&& !r.step->Abort_0->retryable
            &&& r.step->Abort_0.text() == fail_batch_message(failed)
            &&& r.exhausted@.len() == 0
        },
        BatchFailurePolicy::SkipToDlq => {
            &&& after == counted
            &&& r.step is Settled
            &&& r.exhausted@.len() == 0
        },
        BatchFailurePolicy::RetryFailed => {
            let retry = outputs_to_retry(original, failed);
            if retry.len() == 0 {
                &&& after == counted
                &&& r.step is Settled
                &&& r.exhausted@.len() == 0
            } else if max_retries == 0 {
                gave_up(before, after, failed, r)
            } else {
                tries_again(before, after, retry, 1, max_retries, r)
            }
        },
    }
}

/// Decides what to do about the failures of a batch.
///
/// `original` holds the outputs of the batch; they are needed only where failed outputs are
/// retried. Failed events that none of the outputs came from cannot be retried and count as
/// failed, without a mark in the ledger. With no attempt allowed, the events have no retry left
/// from the start.
pub fn handle_batch_failures(
    original: Vec<Output>,
    failed: &Vec<(u128, String)>,
    policy: BatchFailurePolicy,
    max_retries: u32,
    metrics: &mut PipelineMetrics,
) -> (r: FailureReport)
    ensures
        failures_reported(
            original@,
            failed@,
            policy,
            max_retries,
            *old(metrics),
            *final(metrics),
            r,
        ),
{
    match policy {
        BatchFailurePolicy::FailBatch => {
            metrics.events_failed = metrics.events_failed.wrapping_add(failed.len() as u64);
            FailureReport {
                step: FailureStep::Abort(fail_batch_error(failed)),
                exhausted: Vec::new(),
            }
        },
        BatchFailurePolicy::SkipToDlq => {
            metrics.events_failed = metrics.events_failed.wrapping_add(failed.len() as u64);
            FailureReport { step: FailureStep::Settled, exhausted: Vec::new() }
        },
        BatchFailurePolicy::RetryFailed => {
            let retry = select_failed(original, failed);
            if retry.len() == 0 {
                metrics.events_failed = metrics.events_failed.wrapping_add(failed.len() as u64);
                FailureReport { step: FailureStep::Settled, exhausted: Vec::new() }
            } else if max_retries == 0 {
                metrics.events_failed = metrics.events_failed.wrapping_add(failed.len() as u64);
                FailureReport { step: FailureStep::Settled, exhausted: exhausted_marks(failed) }
            } else {
                metrics.events_retried = metrics.events_retried.wrapping_add(retry.len() as u64);
                FailureReport {
                    step: FailureStep::Retry(
                        RetryRound { outputs: retry, attempt: 1, max_retries },
                    ),
                    exhausted: Vec::new(),
                }
            }
        },
    }
}

/// Whether a report is what the result of one more attempt calls for.
pub open spec fn retry_reported(
    round: RetryRound,
    result: BatchResult,
    before: PipelineMetrics,
    after: PipelineMetrics,
    r: FailureReport,
) -> bool {
    let sent = PipelineMetrics {
        outputs_sent: before.outputs_sent.wrapping_add(result.delivered@.len() as u64),
        ..before
    };
    if result.failed@.len() == 0 {
        &&& after == sent
        &&& r.step is Settled
        &&& r.exhausted@.len() == 0
    } else if round.attempt == round.max_retries {
        gave_up(sent, after, result.failed@, r)
    } else {
        tries_again(
            sent,
            after,
            outputs_to_retry(round.outputs@, result.failed@),
            round.attempt + 1,
            round.max_retries,
            r,
        )
    }
}

/// Decides what to do after one more attempt, from what the sink says of it.
///
/// What was delivered counts as sent. Whatever failed again is tried again while attempts are
/// left, narrowed to the outputs that came from events that failed this time.
pub fn retry_finished(
    round: RetryRound,
    result: &BatchResult,
    metrics: &mut PipelineMetrics,
) -> (r: FailureReport)
    requires
        round.attempt <= round.max_retries,
    ensures
        retry_reported(round, *result, *old(metrics), *final(metrics), r),
{
    metrics.outputs_sent = metrics.outputs_sent.wrapping_add(result.delivered.len() as u64);
    if result.failed.len() == 0 {
        return FailureReport { step: FailureStep::Settled, exhausted: Vec::new() };
    }
    if round.attempt == round.max_retries {
        metrics.events_failed = metrics.events_failed.wrapping_add(result.failed.len() as u64);
        FailureReport { step: FailureStep::Settled, exhausted: exhausted_marks(&result.failed) }
    } else {
        let outputs = select_failed(round.outputs, &result.failed);
        metrics.events_retried = metrics.events_retried.wrapping_add(outputs.len() as u64);
        FailureReport {
            step: FailureStep::Retry(
                RetryRound {
                    outputs,
                    attempt: round.attempt + 1,
                    max_retries: round.max_retries,
                },
            ),
            exhausted: Vec::new(),
        }
    }
}

/// Whether one attempt is followed by another: the batch had attempts left, and only outputs of
/// events that failed are written again.
pub open spec fn follows(a: RetryRound, b: RetryRound) -> bool {
    &&& a.attempt < a.max_retries
    &&& b.attempt == a.attempt + 1
    &&& b.max_retries == a.max_retries
    &&& exists|failed: Seq<(u128, String)>|
        b.outputs@ == #[trigger] outputs_to_retry(a.outputs@, failed)
}

/// The attempts at a batch, from the first.
pub open spec fn attempts(rounds: Seq<RetryRound>, max_retries: u32) -> bool
    decreases rounds.len(),
{
    if rounds.len() == 0 {
        true
    } else if rounds.len() == 1 {
        rounds[0].attempt == 1 && rounds[0].max_retries == max_retries && max_retries > 0
    } else {
        attempts(rounds.drop_last(), max_retries) && follows(
            rounds[rounds.len() - 2],
            rounds.last(),
        )
    }
}

/// The outputs of a batch are tried again at most as often as is allowed.
pub proof fn law_retries_are_bounded(rounds: Seq<RetryRound>, max_retries: u32)
    requires
        attempts(rounds, max_retries),
    ensures
        rounds.len() <= max_retries,
        rounds.len() > 0 ==> rounds.last().attempt == rounds.len() && rounds.last().max_retries
            == max_retries,
    decreases rounds.len(),
{
    if rounds.len() > 1 {
        law_retries_are_bounded(rounds.drop_last(), max_retries);
    }
}

/// What is tried again came from the batch, and its order is kept: nothing is invented.
pub proof fn law_retries_invent_nothing(outputs: Seq<Output>, failed: Seq<(u128, String)>, o: Output)
    requires
        outputs_to_retry(outputs, failed).contains(o),
    ensures
        outputs.contains(o),
        came_from_failed(failed, o),
    decreases outputs.len(),
{
    reveal(Seq::filter);
    if outputs.len() > 0 {
        let front = outputs.drop_last();
        let kept = outputs_to_retry(outputs, failed);
        let w = choose|w: int| 0 <= w < kept.len() && kept[w] == o;
        let sub = outputs_to_retry(front, failed);
        if w < sub.len() {
            assert(sub[w] == o);
            law_retries_invent_nothing(front, failed, o);
            let j = choose|j: int| 0 <= j < front.len() && front[j] == o;
            assert(outputs[j] == o);
        } else {
            assert(outputs[outputs.len() - 1] == o);
        }
    }
}

/// Every output of a batch whose event failed is written again, as often as it is in the batch,
/// whatever else it holds; no other output is.
pub proof fn law_every_failed_output_is_tried_again(
    outputs: Seq<Output>,
    failed: Seq<(u128, String)>,
    o: Output,
)
    ensures
        outputs_to_retry(outputs, failed).to_multiset().count(o) == (if exists|i: int|
            0 <= i < failed.len() && o.source_event_id == Some(#[trigger] failed[i].0) {
            outputs.to_multiset().count(o)
        } else {
            0
        }),
    decreases outputs.len(),
{
    broadcast use vstd::seq_lib::group_to_multiset_ensures;

    reveal(Seq::filter);
    if outputs.len() > 0 {
        let rest = outputs.drop_last();
        let last = outputs.last();
        law_every_failed_output_is_tried_again(rest, failed, o);
        assert(outputs =~= rest.push(last));
        let kept = outputs_to_retry(rest, failed);
        if exists|i: int| 0 <= i < failed.len() && last.source_event_id == Some(
            #[trigger] failed[i].0,
        ) {
            let i = choose|i: int|
                0 <= i < failed.len() && last.source_event_id == Some(#[trigger] failed[i].0);
            assert(failed[i].0 == last.source_event_id->0);
            assert(outputs_to_retry(outputs, failed) =~= kept.push(last));
        } else {
            assert(outputs_to_retry(outputs, failed) =~= kept);
        }
    } else {
        assert(outputs_to_retry(outputs, failed) =~= outputs);
    }
}

/// Outputs are written again in the order of the batch: what is written again of two parts, one
/// after the other, is what is written again of the whole.
pub proof fn law_retries_keep_the_order(
    a: Seq<Output>,
    b: Seq<Output>,
    failed: Seq<(u128, String)>,
)
    ensures
        outputs_to_retry(a + b, failed) == outputs_to_retry(a, failed) + outputs_to_retry(
            b,
            failed,
        ),
{
    Seq::filter_distributes_over_add(a, b, |o: Output| came_from_failed(failed, o));
}

/// An output of an event that failed is written again where the policy says so and an attempt is
/// left, and nothing counts as failed yet.
pub proof fn law_a_failed_output_is_written_again(
    original: Seq<Output>,
    failed: Seq<(u128, String)>,
    max_retries: u32,
    before: PipelineMetrics,
    after: PipelineMetrics,
    r: FailureReport,
    i: int,
    j: int,
)
    requires
        failures_reported(
            original,
            failed,
            BatchFailurePolicy::RetryFailed,
            max_retries,
            before,
            after,
            r,
        ),
        max_retries > 0,
        0 <= i < original.len(),
        0 <= j < failed.len(),
        original[i].source_event_id == Some(failed[j].0),
    ensures
        r.step is Retry,
        r.step->Retry_0.outputs@.contains(original[i]),
        r.step->Retry_0.outputs@ == outputs_to_retry(original, failed),
        r.step->Retry_0.attempt == 1,
        r.step->Retry_0.max_retries == max_retries,
        r.exhausted@.len() == 0,
        after.events_failed == before.events_failed,
        after.events_retried == before.events_retried.wrapping_add(
            r.step->Retry_0.outputs@.len() as u64,
        ),
{
    let pred = |o: Output| came_from_failed(failed, o);
    assert(failed[j].0 == original[i].source_event_id->0);
    assert(pred(original[i]));
    original.lemma_filter_contains(pred, i);
    assert(outputs_to_retry(original, failed).contains(original[i]));
}

/// An output of an event that failed once more is written once more while an attempt is left; with
/// the last attempt its event counts as failed, and the ledger is told why.
pub proof fn law_attempts_are_used_up(
    round: RetryRound,
    result: BatchResult,
    before: PipelineMetrics,
    after: PipelineMetrics,
    r: FailureReport,
)
    requires
        round.attempt <= round.max_retries,
        retry_reported(round, result, before, after, r),
    ensures
        after.outputs_sent == before.outputs_sent.wrapping_add(result.delivered@.len() as u64),
        after.events_received == before.events_received,
        after.events_processed == before.events_processed,
        after.outputs_acked == before.outputs_acked,
        after.checkpoints_written == before.checkpoints_written,
        after.poh_entries == before.poh_entries,
        r.step !is Retry ==> after.events_retried == before.events_retried,
        result.failed@.len() == 0 ==> r.step is Settled && r.exhausted@.len() == 0
            && after.events_failed == before.events_failed,
        result.failed@.len() > 0 && round.attempt < round.max_retries ==> {
            &&& r.step is Retry
            &&& r.step->Retry_0.attempt == round.attempt + 1
            &&& r.step->Retry_0.max_retries == round.max_retries
            &&& after.events_failed == before.events_failed
            &&& after.events_retried == before.events_retried.wrapping_add(
                r.step->Retry_0.outputs@.len() as u64,
            )
            &&& r.exhausted@.len() == 0
            &&& r.step->Retry_0.outputs@ == outputs_to_retry(round.outputs@, result.failed@)
            &&& forall|i: int, j: int|
                0 <= i < round.outputs@.len() && 0 <= j < result.failed@.len() && (
                #[trigger] round.outputs@[i]).source_event_id == Some(
                    (#[trigger] result.failed@[j]).0,
                ) ==> r.step->Retry_0.outputs@.contains(round.outputs@[i])
        },
        result.failed@.len() > 0 && round.attempt == round.max_retries ==> {
            &&& r.step is Settled
            &&& after.events_failed == before.events_failed.wrapping_add(
                result.failed@.len() as u64,
            )
            &&& r.exhausted@.len() == result.failed@.len()
            &&& forall|j: int|
                0 <= j < result.failed@.len() ==> (#[trigger] r.exhausted@[j]).0
                    == result.failed@[j].0 && r.exhausted@[j].1@ == "retry exhausted: "@
                    + result.failed@[j].1@
        },
{
    let pred = |o: Output| came_from_failed(result.failed@, o);
    assert forall|i: int, j: int|
        0 <= i < round.outputs@.len() && 0 <= j < result.failed@.len() && (
        #[trigger] round.outputs@[i]).source_event_id == Some(
            (#[trigger] result.failed@[j]).0,
        ) implies outputs_to_retry(round.outputs@, result.failed@).contains(
        round.outputs@[i],
    ) by {
        assert(result.failed@[j].0 == round.outputs@[i].source_event_id->0);
        assert(pred(round.outputs@[i]));
        round.outputs@.lemma_filter_contains(pred, i);
    }
}

/// Whatever the policy, failures are accounted for once: either outputs are written again and
/// nothing counts as failed, or every failure counts as failed and nothing is written again. Only
/// a policy that stops at failures stops the pipeline, and it always does, with an error that is
/// not tried again.
pub proof fn law_failures_are_accounted_for(
    original: Seq<Output>,
    failed: Seq<(u128, String)>,
    policy: BatchFailurePolicy,
    max_retries: u32,
    before: PipelineMetrics,
    after: PipelineMetrics,
    r: FailureReport,
)
    requires
        failures_reported(original, failed, policy, max_retries, before, after, r),
    ensures
        after.outputs_sent == before.outputs_sent,
        after.events_received == before.events_received,
        after.events_processed == before.events_processed,
        after.outputs_acked == before.outputs_acked,
        after.checkpoints_written == before.checkpoints_written,
        after.poh_entries == before.poh_entries,
        r.step is Abort == (policy == BatchFailurePolicy::FailBatch),
        r.step matches FailureStep::Abort(e) ==> e is Connection && !e->retryable && e.text()
            == fail_batch_message(failed),
        r.step is Retry <==> policy == BatchFailurePolicy::RetryFailed && max_retries > 0 && (
        exists|i: int, j: int|
            0 <= i < original.len() && 0 <= j < failed.len() && (
            #[trigger] original[i]).source_event_id == Some((#[trigger] failed[j]).0)),
        !(exists|i: int, j: int|
            0 <= i < original.len() && 0 <= j < failed.len() && (
            #[trigger] original[i]).source_event_id == Some((#[trigger] failed[j]).0))
            ==> r.exhausted@.len() == 0,
        r.exhausted@.len() > 0 ==> max_retries == 0,
        r.step is Retry ==> after.events_failed == before.events_failed,
        r.step !is Retry ==> {
            &&& after.events_failed == before.events_failed.wrapping_add(failed.len() as u64)
            &&& after.events_retried == before.events_retried
        },
        policy == BatchFailurePolicy::RetryFailed && max_retries == 0 && r.exhausted@.len() > 0 ==> {
            &&& r.exhausted@.len() == failed.len()
            &&& forall|j: int|
                0 <= j < failed.len() ==> (#[trigger] r.exhausted@[j]).0 == failed[j].0
                    && r.exhausted@[j].1@ == "retry exhausted: "@ + failed[j].1@
        },
        policy != BatchFailurePolicy::RetryFailed ==> r.exhausted@.len() == 0,
        policy == BatchFailurePolicy::RetryFailed && max_retries == 0 && (exists|i: int, j: int|
            0 <= i < original.len() && 0 <= j < failed.len() && (
            #[trigger] original[i]).source_event_id == Some((#[trigger] failed[j]).0))
            ==> r.exhausted@.len() == failed.len(),
{
    let retry = outputs_to_retry(original, failed);
    if retry.len() > 0 {
        let pred = |o: Output| came_from_failed(failed, o);
        let o = retry[0];
        original.lemma_filter_contains_rev(pred, o);
        let i = choose|i: int| 0 <= i < original.len() && original[i] == o;
        original.lemma_filter_pred(pred, 0);
        let j = choose|j: int|
            0 <= j < failed.len() && (#[trigger] failed[j]).0 == o.source_event_id->0;
        assert(original[i].source_event_id == Some(failed[j].0));
    }
    if exists|i: int, j: int|
        0 <= i < original.len() && 0 <= j < failed.len() && (
        #[trigger] original[i]).source_event_id == Some((#[trigger] failed[j]).0) {
        let (i, j) = choose|i: int, j: int|
            0 <= i < original.len() && 0 <= j < failed.len() && (
            #[trigger] original[i]).source_event_id == Some((#[trigger] failed[j]).0);
        let pred = |o: Output| came_from_failed(failed, o);
        assert(failed[j].0 == original[i].source_event_id->0);
        assert(pred(original[i]));
        original.lemma_filter_contains(pred, i);
        assert(outputs_to_retry(original, failed).contains(original[i]));
    }
}

/// The error of a pipeline that stops because of failures says how many there were and names the
/// first, with its reason.
pub proof fn law_the_first_failure_is_named(failed: Seq<(u128, String)>)
    requires
        failed.len() > 0,
    ensures
        ({
            let text = fail_batch_message(failed);
            let reason = failed[0].1@;
            let before = text.take(text.len() - reason.len());
            let id = hyphenated(failed[0].0);
            let head = "FailBatch: "@ + decimal(failed.len());
            &&& reason.len() <= text.len()
            &&& text.skip(text.len() - reason.len()) == reason
            &&& head.is_prefix_of(text)
            &&& before.len() >= id.len() + 2
            &&& before.subrange(before.len() - 2 - id.len(), before.len() - 2) == id
        }),
{
    let text = fail_batch_message(failed);
    let reason = failed[0].1@;
    let id = hyphenated(failed[0].0);
    let head = "FailBatch: "@ + decimal(failed.len());
    let start = head + " events failed in batch, first: "@ + "event "@;
    reveal_strlit(": ");
    assert(text =~= start + id + ": "@ + reason);
    let before = text.take(text.len() - reason.len());
    assert(before =~= start + id + ": "@);
    assert(text.skip(text.len() - reason.len()) =~= reason);
    assert(text.take(head.len() as int) =~= head);
    assert(before.subrange(before.len() - 2 - id.len(), before.len() - 2) =~= id);
}

} // verus!
