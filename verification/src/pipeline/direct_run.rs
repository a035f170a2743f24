//! The run of a pipeline without rings: source, processor and sink in one loop.
use vstd::prelude::*;

use crate::error::AeonError;
use crate::pipeline::failures::{
    failures_reported, handle_batch_failures, law_a_failed_output_is_written_again,
    retry_finished, retry_reported, FailureReport, FailureStep, RetryRound,
};
use crate::pipeline::metrics::PipelineMetrics;
use crate::pipeline::source_task::{
    batch_processed, fetch_step, on_fetched, outputs_delivered, FetchStep,
};
use crate::types::{
    copy_outputs, output_copies, BatchFailurePolicy, BatchResult, Event, Output, SourceKind,
};

verus! {

/// What happens to outputs that fail.
#[derive(Debug, Clone, Copy, PartialEq, Eq, Structural)]
pub struct FailureRules {
    pub policy: BatchFailurePolicy,
    pub max_retries: u32,
}

/// What the pipeline waits for.
pub enum DirectPhase {
    Looking,
    Fetching,
    /// The processor's answer to so many events.
    Processing(usize),
    /// The sink's word on a batch, of which these outputs are kept.
    Writing(Vec<Output>),
    /// The sink's word on outputs that were written again.
    Retrying(RetryRound),
    Flushing,
    Ended,
}

/// What has happened.
pub enum DirectEvent {
    Looked { shutdown: bool },
    Fetched(Result<Vec<Event>, AeonError>),
    Processed(Result<Vec<Output>, AeonError>),
    Written(Result<BatchResult, AeonError>),
    Flushed(Result<(), AeonError>),
}

/// What is to be done next.
pub enum DirectAct {
    /// See whether the pipeline is being shut down.
    Look,
    /// Let others have their turn, and then the same.
    Wait,
    /// Ask the source for a batch.
    Fetch,
    /// Process these events.
    Process(Vec<Event>),
    /// Write these outputs.
    Write(Vec<Output>),
    /// Wait for the configured backoff, and write these outputs.
    WriteAgain(Vec<Output>),
    /// Flush the sink.
    Flush,
    /// Stop, with this outcome.
    End(Result<(), AeonError>),
}

/// The run of a pipeline without rings. Without rules, outputs that fail are passed over.
pub struct DirectRun {
    pub kind: SourceKind,
    pub rules: Option<FailureRules>,
    pub phase: DirectPhase,
}

impl DirectRun {
    /// Retries stay within what is allowed.
    pub open spec fn wf(&self) -> bool {
        match self.phase {
            DirectPhase::Retrying(round) => round.attempt <= round.max_retries,
            _ => true,
        }
    }

    /// Whether the pipeline waits for something like this.
    pub open spec fn expects(&self, event: DirectEvent) -> bool {
        match event {
            DirectEvent::Looked { .. } => self.phase is Looking,
            DirectEvent::Fetched(_) => self.phase is Fetching,
            DirectEvent::Processed(_) => self.phase is Processing,
            DirectEvent::Written(_) => self.phase is Writing || self.phase is Retrying,
            DirectEvent::Flushed(_) => self.phase is Flushing,
        }
    }
}

/// What the pipeline does about the failures of a batch, as the report on them says.
pub open spec fn obeys(report: FailureReport, after: DirectRun, act: DirectAct) -> bool {
    match report.step {
        FailureStep::Settled => after.phase is Looking && act is Look,
        FailureStep::Abort(e) => after.phase is Ended && act == DirectAct::End(Err(e)),
        FailureStep::Retry(round) => {
            &&& after.phase == DirectPhase::Retrying(round)
            &&& act is WriteAgain
            &&& output_copies(act->WriteAgain_0@, round.outputs@)
        },
    }
}

/// The sink has answered to a batch: what was delivered counts as sent, and the rules, where
/// there are any, are applied to what failed.
pub open spec fn on_batch_written(
    rules: Option<FailureRules>,
    kept: Seq<Output>,
    result: BatchResult,
    m0: PipelineMetrics,
    after: DirectRun,
    m1: PipelineMetrics,
    act: DirectAct,
) -> bool {
    let sent = PipelineMetrics {
        outputs_sent: m0.outputs_sent.wrapping_add(result.delivered@.len() as u64),
        ..m0
    };
    if rules is Some && result.failed@.len() > 0 {
        exists|report: FailureReport|
            {
                &&& #[trigger] failures_reported(
                    kept,
                    result.failed@,
                    rules->0.policy,
                    rules->0.max_retries,
                    sent,
                    m1,
                    report,
                )
                &&& obeys(report, after, act)
            }
    } else {
        m1 == sent && after.phase is Looking && act is Look
    }
}

/// What a pipeline without rings makes of an event.
pub open spec fn direct_reacts(
    before: DirectRun,
    event: DirectEvent,
    m0: PipelineMetrics,
    after: DirectRun,
    m1: PipelineMetrics,
    act: DirectAct,
) -> bool {
    &&& after.kind == before.kind
    &&& after.rules == before.rules
    &&& match (before.phase, event) {
        (DirectPhase::Looking, DirectEvent::Looked { shutdown }) => {
            &&& m1 == m0
            &&& if shutdown {
                after.phase is Flushing && act is Flush
            } else {
                after.phase is Fetching && act is Fetch
            }
        },
        (DirectPhase::Fetching, DirectEvent::Fetched(Ok(events))) => {
            &&& m1 == PipelineMetrics {
                events_received: m0.events_received.wrapping_add(events@.len() as u64),
                ..m0
            }
            &&& match fetch_step(events@.len(), before.kind, false) {
                FetchStep::Stop => after.phase is Flushing && act is Flush,
                FetchStep::Yield => after.phase is Looking && act is Wait,
                FetchStep::Again => after.phase is Looking && act is Look,
                FetchStep::Forward => after.phase == DirectPhase::Processing(
                    events@.len() as usize,
                ) && act == DirectAct::Process(events),
            }
        },
        (DirectPhase::Processing(count), DirectEvent::Processed(Ok(outputs))) => {
            &&& m1 == PipelineMetrics {
                events_processed: m0.events_processed.wrapping_add(count as u64),
                ..m0
            }
            &&& after.phase is Writing
            &&& if before.rules is Some {
                output_copies(after.phase->Writing_0@, outputs@)
            } else {
                after.phase->Writing_0@.len() == 0
            }
            &&& act == DirectAct::Write(outputs)
        },
        (DirectPhase::Writing(kept), DirectEvent::Written(Ok(result))) => on_batch_written(
            before.rules,
            kept@,
            result,
            m0,
            after,
            m1,
            act,
        ),
        (DirectPhase::Retrying(round), DirectEvent::Written(Ok(result))) => {
            exists|report: FailureReport|
                {
                    &&& #[trigger] retry_reported(round, result, m0, m1, report)
                    &&& obeys(report, after, act)
                }
        },
        (DirectPhase::Flushing, DirectEvent::Flushed(outcome)) => {
            &&& m1 == m0
            &&& after.phase is Ended
            &&& act == DirectAct::End(outcome)
        },
        (_, DirectEvent::Fetched(Err(e))) => m1 == m0 && after.phase is Ended && act
            == DirectAct::End(Err(e)),
        (_, DirectEvent::Processed(Err(e))) => m1 == m0 && after.phase is Ended && act
            == DirectAct::End(Err(e)),
        (_, DirectEvent::Written(Err(e))) => m1 == m0 && after.phase is Ended && act
            == DirectAct::End(Err(e)),
        _ => false,
    }
}

impl DirectRun {
    /// A run that starts by seeing whether it is being shut down.
    pub fn new(kind: SourceKind, rules: Option<FailureRules>) -> (r: Self)
        ensures
            r.wf(),
            r == (DirectRun { kind, rules, phase: DirectPhase::Looking }),
    {
        DirectRun { kind, rules, phase: DirectPhase::Looking }
    }

    fn obey(&mut self, report: FailureReport) -> (r: DirectAct)
        requires
            report.step is Retry ==> report.step->Retry_0.attempt
                <= report.step->Retry_0.max_retries,
        ensures
            final(self).wf(),
            final(self).kind == old(self).kind,
            final(self).rules == old(self).rules,
            obeys(report, *final(self), r),
    {
        match report.step {
            FailureStep::Settled => {
                self.phase = DirectPhase::Looking;
                DirectAct::Look
            },
            FailureStep::Abort(e) => self.end(Err(e)),
            FailureStep::Retry(round) => {
                let again = copy_outputs(&round.outputs);
                self.phase = DirectPhase::Retrying(round);
                DirectAct::WriteAgain(again)
            },
        }
    }

    fn end(&mut self, outcome: Result<(), AeonError>) -> (r: DirectAct)
        ensures
            *final(self) == (DirectRun { phase: DirectPhase::Ended, ..*old(self) }),
            r == DirectAct::End(outcome),
    {
        self.phase = DirectPhase::Ended;
        DirectAct::End(outcome)
    }

    fn batch_came(&mut self, events: Vec<Event>, metrics: &mut PipelineMetrics) -> (r: DirectAct)
        requires
            old(self).phase is Fetching,
        ensures
            final(self).wf(),
            direct_reacts(
                *old(self),
                DirectEvent::Fetched(Ok(events)),
                *old(metrics),
                *final(self),
                *final(metrics),
                r,
            ),
    {
        let count: usize = events.len();
        match on_fetched(count, self.kind, false, metrics) {
            FetchStep::Stop => {
                self.phase = DirectPhase::Flushing;
                DirectAct::Flush
            },
            FetchStep::Yield => {
                self.phase = DirectPhase::Looking;
                DirectAct::Wait
            },
            FetchStep::Again => {
                self.phase = DirectPhase::Looking;
                DirectAct::Look
            },
            FetchStep::Forward => {
                self.phase = DirectPhase::Processing(count);
                DirectAct::Process(events)
            },
        }
    }

    fn batch_written(
        &mut self,
        kept: Vec<Output>,
        result: BatchResult,
        metrics: &mut PipelineMetrics,
    ) -> (r: DirectAct)
        ensures
            final(self).wf(),
            final(self).kind == old(self).kind,
            final(self).rules == old(self).rules,
            on_batch_written(
                old(self).rules,
                kept@,
                result,
                *old(metrics),
                *final(self),
                *final(metrics),
                r,
            ),
    {
        outputs_delivered(result.delivered.len(), metrics);
        let ghost sent = *metrics;
        if let Some(rules) = self.rules {
            if result.failed.len() > 0 {
                let report = handle_batch_failures(
                    kept,
                    &result.failed,
                    rules.policy,
                    rules.max_retries,
                    metrics,
                );
                let ghost said = report;
                let act = self.obey(report);
                proof {
                    assert(failures_reported(
                        kept@,
                        result.failed@,
                        rules.policy,
                        rules.max_retries,
                        sent,
                        *metrics,
                        said,
                    ));
                }
                return act;
            }
        }
        self.phase = DirectPhase::Looking;
        DirectAct::Look
    }

    /// Takes note of what has happened, and says what is to be done next.
    pub fn next(&mut self, event: DirectEvent, metrics: &mut PipelineMetrics) -> (r: DirectAct)
        requires
            old(self).wf(),
            old(self).expects(event),
        ensures
            final(self).wf(),
            direct_reacts(*old(self), event, *old(metrics), *final(self), *final(metrics), r),
    {
        match event {
            DirectEvent::Looked { shutdown } => if shutdown {
                self.phase = DirectPhase::Flushing;
                DirectAct::Flush
            } else {
                self.phase = DirectPhase::Fetching;
                DirectAct::Fetch
            },
            DirectEvent::Fetched(Ok(events)) => self.batch_came(events, metrics),
            DirectEvent::Fetched(Err(e)) => self.end(Err(e)),
            DirectEvent::Processed(Ok(outputs)) => {
                if let DirectPhase::Processing(count) = self.phase {
                    batch_processed(count, metrics);
                }
                let kept = if self.rules.is_some() {
                    copy_outputs(&outputs)
                } else {
                    Vec::new()
                };
                self.phase = DirectPhase::Writing(kept);
                DirectAct::Write(outputs)
            },
            DirectEvent::Processed(Err(e)) => self.end(Err(e)),
            DirectEvent::Written(Ok(result)) => {
                let mut phase = DirectPhase::Ended;
                std::mem::swap(&mut self.phase, &mut phase);
                match phase {
                    DirectPhase::Writing(kept) => self.batch_written(kept, result, metrics),
                    DirectPhase::Retrying(round) => {
                        let report = retry_finished(round, &result, metrics);
                        let ghost said = report;
                        let act = self.obey(report);
                        proof {
                            assert(retry_reported(round, result, *old(metrics), *metrics, said));
                        }
                        act
                    },
                    _ => DirectAct::Look,
                }
            },
            DirectEvent::Written(Err(e)) => self.end(Err(e)),
            DirectEvent::Flushed(outcome) => self.end(outcome),
        }
    }
}

/// A pipeline that ends well has flushed its sink last.
pub proof fn law_a_clean_end_comes_with_a_flush(
    before: DirectRun,
    event: DirectEvent,
    m0: PipelineMetrics,
    after: DirectRun,
    m1: PipelineMetrics,
    act: DirectAct,
)
    requires
        direct_reacts(before, event, m0, after, m1, act),
        act == DirectAct::End(Ok(())),
    ensures
        event == DirectEvent::Flushed(Ok(())),
{
}

/// What a pipeline without rings does with what each of its parts answers: events go to the
/// processor as they came and outputs to the sink as they came; the pipeline is shut down between
/// batches, and an empty batch ends a source that is pulled, both by way of a flush.
pub proof fn law_what_a_direct_pipeline_does(
    before: DirectRun,
    event: DirectEvent,
    m0: PipelineMetrics,
    after: DirectRun,
    m1: PipelineMetrics,
    act: DirectAct,
)
    requires
        before.expects(event),
        direct_reacts(before, event, m0, after, m1, act),
    ensures
        event matches DirectEvent::Looked { shutdown } ==> (if shutdown {
            act is Flush
        } else {
            act is Fetch
        }),
        event matches DirectEvent::Fetched(Ok(events)) ==> {
            &&& m1.events_received == m0.events_received.wrapping_add(events@.len() as u64)
            &&& events@.len() > 0 ==> act == DirectAct::Process(events)
            &&& events@.len() == 0 && before.kind == SourceKind::Pull ==> act is Flush
            &&& events@.len() == 0 && before.kind != SourceKind::Pull ==> act is Wait
        },
        event matches DirectEvent::Processed(Ok(outputs)) ==> {
            &&& act == DirectAct::Write(outputs)
            &&& m1.events_processed == m0.events_processed.wrapping_add(
                before.phase->Processing_0 as u64,
            )
        },
        event matches DirectEvent::Written(Ok(result)) ==> m1.outputs_sent
            == m0.outputs_sent.wrapping_add(result.delivered@.len() as u64),
        event matches DirectEvent::Flushed(outcome) ==> act == DirectAct::End(outcome),
        event matches DirectEvent::Fetched(Err(e)) ==> act == DirectAct::End(Err(e)),
        event matches DirectEvent::Processed(Err(e)) ==> act == DirectAct::End(Err(e)),
        event matches DirectEvent::Written(Err(e)) ==> act == DirectAct::End(Err(e)),
        after.rules == before.rules,
        after.kind == before.kind,
{
}

/// An output that failed is written again where the rules say so and an attempt is left: a copy of
/// it is among what is written, and nothing counts as failed. Without rules a failure is passed
/// over.
pub proof fn law_a_direct_pipeline_writes_again(
    before: DirectRun,
    result: BatchResult,
    m0: PipelineMetrics,
    after: DirectRun,
    m1: PipelineMetrics,
    act: DirectAct,
    i: int,
    j: int,
)
    requires
        before.phase is Writing,
        direct_reacts(before, DirectEvent::Written(Ok(result)), m0, after, m1, act),
        0 <= i < before.phase->Writing_0@.len(),
        0 <= j < result.failed@.len(),
        before.phase->Writing_0@[i].source_event_id == Some(result.failed@[j].0),
    ensures
        before.rules is None ==> act is Look && m1.events_failed == m0.events_failed,
        before.rules is Some && before.rules->0.policy == BatchFailurePolicy::RetryFailed
            && before.rules->0.max_retries > 0 ==> {
            &&& act is WriteAgain
            &&& m1.events_failed == m0.events_failed
            &&& exists|k: int|
                0 <= k < act->WriteAgain_0@.len() && (#[trigger] act->WriteAgain_0@[k]).same_as(
                    before.phase->Writing_0@[i],
                )
        },
        before.rules is Some && before.rules->0.policy == BatchFailurePolicy::SkipToDlq ==> act
            is Look && m1.events_failed == m0.events_failed.wrapping_add(
            result.failed@.len() as u64,
        ),
        before.rules is Some && before.rules->0.policy == BatchFailurePolicy::FailBatch ==> act
            is End && act->End_0 is Err,
{
    if before.rules is Some {
        let rules = before.rules->0;
        let kept = before.phase->Writing_0@;
        let sent = PipelineMetrics {
            outputs_sent: m0.outputs_sent.wrapping_add(result.delivered@.len() as u64),
            ..m0
        };
        let report = choose|report: FailureReport|
            {
                &&& #[trigger] failures_reported(
                    kept,
                    result.failed@,
                    rules.policy,
                    rules.max_retries,
                    sent,
                    m1,
                    report,
                )
                &&& obeys(report, after, act)
            };
        if rules.policy == BatchFailurePolicy::RetryFailed && rules.max_retries > 0 {
            law_a_failed_output_is_written_again(
                kept,
                result.failed@,
                rules.max_retries,
                sent,
                m1,
                report,
                i,
                j,
            );
            let round = report.step->Retry_0;
            let k = choose|k: int| 0 <= k < round.outputs@.len() && round.outputs@[k] == kept[i];
            assert(act->WriteAgain_0@[k].same_as(round.outputs@[k]));
        }
    }
}

/// What a pipeline without rings waits for next is the answer to what it asks for. It keeps copies
/// of what it writes only where it has rules for failures, and counts nothing but what each answer
/// is about.
pub proof fn law_a_direct_pipeline_waits_for_the_answer(
    before: DirectRun,
    event: DirectEvent,
    m0: PipelineMetrics,
    after: DirectRun,
    m1: PipelineMetrics,
    act: DirectAct,
)
    requires
        before.expects(event),
        direct_reacts(before, event, m0, after, m1, act),
    ensures
        act is Fetch ==> after.phase is Fetching,
        act is Flush ==> after.phase is Flushing,
        act is End ==> after.phase is Ended,
        act is Look || act is Wait ==> after.phase is Looking,
        act is WriteAgain ==> after.phase is Retrying,
        act matches DirectAct::Process(events) ==> after.phase == DirectPhase::Processing(
            events@.len() as usize,
        ),
        act matches DirectAct::Write(outputs) ==> {
            &&& after.phase is Writing
            &&& before.rules is Some ==> {
                &&& after.phase->Writing_0@.len() == outputs@.len()
                &&& forall|i: int|
                    0 <= i < outputs@.len() ==> (#[trigger] after.phase->Writing_0@[i]).same_as(
                        outputs@[i],
                    )
            }
            &&& before.rules is None ==> after.phase->Writing_0@.len() == 0
        },
        event is Looked || event is Flushed ==> m1 == m0,
        event is Fetched ==> m1 == (PipelineMetrics { events_received: m1.events_received, ..m0 }),
        event is Processed ==> m1 == (PipelineMetrics {
            events_processed: m1.events_processed,
            ..m0
        }),
        event matches DirectEvent::Fetched(Err(_)) ==> m1 == m0,
        event matches DirectEvent::Processed(Err(_)) ==> m1 == m0,
        event matches DirectEvent::Written(Err(_)) ==> m1 == m0,
{
}

/// What failed in a batch is dealt with as the report on it says, where there are rules; without
/// rules, and without failures, the pipeline goes on.
pub proof fn law_a_direct_pipeline_obeys_the_report(
    before: DirectRun,
    result: BatchResult,
    m0: PipelineMetrics,
    after: DirectRun,
    m1: PipelineMetrics,
    act: DirectAct,
) -> (report: FailureReport)
    requires
        before.phase is Writing || before.phase is Retrying,
        direct_reacts(before, DirectEvent::Written(Ok(result)), m0, after, m1, act),
    ensures
        before.phase is Writing && (before.rules is None || result.failed@.len() == 0) ==> act
            is Look && m1 == (PipelineMetrics {
            outputs_sent: m0.outputs_sent.wrapping_add(result.delivered@.len() as u64),
            ..m0
        }),
        before.phase is Writing && before.rules is Some && result.failed@.len() > 0
            ==> failures_reported(
            before.phase->Writing_0@,
            result.failed@,
            before.rules->0.policy,
            before.rules->0.max_retries,
            PipelineMetrics {
                outputs_sent: m0.outputs_sent.wrapping_add(result.delivered@.len() as u64),
                ..m0
            },
            m1,
            report,
        ),
        before.phase matches DirectPhase::Retrying(round) ==> retry_reported(
            round,
            result,
            m0,
            m1,
            report,
        ),
        before.phase is Retrying || before.rules is Some && result.failed@.len() > 0 ==> {
            &&& report.step is Settled ==> act is Look
            &&& report.step matches FailureStep::Abort(e) ==> act == DirectAct::End(Err(e))
            &&& report.step matches FailureStep::Retry(round) ==> {
                &&& act is WriteAgain
                &&& after.phase == DirectPhase::Retrying(round)
                &&& act->WriteAgain_0@.len() == round.outputs@.len()
                &&& forall|i: int|
                    0 <= i < round.outputs@.len() ==> (#[trigger] act->WriteAgain_0@[i]).same_as(
                        round.outputs@[i],
                    )
            }
        },
{
    let sent = PipelineMetrics {
        outputs_sent: m0.outputs_sent.wrapping_add(result.delivered@.len() as u64),
        ..m0
    };
    if before.phase is Writing {
        let kept = before.phase->Writing_0@;
        choose|report: FailureReport|
            {
                &&& #[trigger] failures_reported(
                    kept,
                    result.failed@,
                    before.rules->0.policy,
                    before.rules->0.max_retries,
                    sent,
                    m1,
                    report,
                )
                &&& obeys(report, after, act)
            }
    } else {
        let round = before.phase->Retrying_0;
        choose|report: FailureReport|
            {
                &&& #[trigger] retry_reported(round, result, m0, m1, report)
                &&& obeys(report, after, act)
            }
    }
}

} // verus!
