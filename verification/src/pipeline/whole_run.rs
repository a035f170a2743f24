//! What holds of whole runs: nothing that comes to a stage is lost on the way through it.
use vstd::multiset::Multiset;
use vstd::prelude::*;

use crate::pipeline::direct_run::{direct_reacts, DirectAct, DirectEvent, DirectPhase, DirectRun};
use crate::pipeline::metrics::PipelineMetrics;
use crate::pipeline::processor_run::{
    counted, processes, processor_reacts, ProcessorAct, ProcessorEvent, ProcessorMove,
    ProcessorPhase, ProcessorRun,
};
use crate::pipeline::processor_task::{law_split_keeps_every_event, Routed};
use crate::pipeline::sink_run::{
    law_a_clean_end_credits_everything, progress, reacts, SinkAct, SinkEvent, SinkPhase, SinkRun,
    SinkStep,
};
use crate::pipeline::source_run::{source_reacts, SourceAct, SourceEvent, SourceMove, SourceRun};
use crate::time::Duration;
use crate::types::{Event, Output};

verus! {

/// A counter that has grown by a number. Past its end it starts again at zero.
pub open spec fn grown(counter: u64, n: nat) -> u64 {
    ((counter + n) % 0x1_0000_0000_0000_0000) as u64
}

proof fn lemma_grown(counter: u64, n: nat, more: nat)
    requires
        more <= u64::MAX,
    ensures
        grown(counter, n + more) == grown(counter, n).wrapping_add(more as u64),
{
}

/// One step of a source stage, on record. The counters before it are those after the step before,
/// but for what other stages have counted meanwhile.
pub ghost struct SourceRecord {
    pub before: SourceRun,
    pub event: SourceEvent,
    pub m0: PipelineMetrics,
    pub after: SourceRun,
    pub m1: PipelineMetrics,
    pub result: SourceMove,
}

/// Whether a source stage has gone through these steps, one after the other. Another source may
/// have taken the place of the first one in between.
pub open spec fn source_ran(start: SourceRun, counter: u64, steps: Seq<SourceRecord>) -> bool
    decreases steps.len(),
{
    steps.len() == 0 || {
        let earlier = steps.drop_last();
        let step = steps.last();
        &&& source_ran(start, counter, earlier)
        &&& step.before == SourceRun {
            kind: step.before.kind,
            ..(if earlier.len() == 0 {
                start
            } else {
                earlier.last().after
            })
        }
        &&& step.m0.events_received == received_after(counter, earlier)
        &&& step.before.expects(step.event)
        &&& source_reacts(step.before, step.event, step.m0, step.after, step.m1, step.result)
    }
}

/// How many events count as received after these steps, where `counter` did before.
pub open spec fn received_after(counter: u64, steps: Seq<SourceRecord>) -> u64 {
    if steps.len() == 0 {
        counter
    } else {
        steps.last().m1.events_received
    }
}

/// The events that the source has answered with, in order.
pub open spec fn events_fetched(steps: Seq<SourceRecord>) -> Seq<Event>
    decreases steps.len(),
{
    if steps.len() == 0 {
        seq![]
    } else {
        events_fetched(steps.drop_last()) + (match steps.last().event {
            SourceEvent::Fetched { batch: Ok(events), .. } => events@,
            _ => seq![],
        })
    }
}

/// The events that have been handed on, in order.
pub open spec fn events_handed_on(steps: Seq<SourceRecord>) -> Seq<Event>
    decreases steps.len(),
{
    if steps.len() == 0 {
        seq![]
    } else {
        events_handed_on(steps.drop_last()) + (match steps.last().result.act {
            SourceAct::HandOn(events) => events@,
            _ => seq![],
        })
    }
}

/// A source stage loses nothing, whatever pauses, swaps and partitions come in between, and
/// however it ends: every event that the source has answered with counts as received and is
/// handed on, in order.
pub proof fn law_a_source_stage_loses_nothing(
    start: SourceRun,
    counter: u64,
    steps: Seq<SourceRecord>,
)
    requires
        source_ran(start, counter, steps),
    ensures
        received_after(counter, steps) == grown(counter, events_fetched(steps).len()),
        events_handed_on(steps) == events_fetched(steps),
    decreases steps.len(),
{
    if steps.len() > 0 {
        let earlier = steps.drop_last();
        let step = steps.last();
        law_a_source_stage_loses_nothing(start, counter, earlier);
        match step.event {
            SourceEvent::Fetched { batch: Ok(events), .. } => {
                assert(events.len() == events@.len());
                lemma_grown(counter, events_fetched(earlier).len(), events@.len());
                assert(events_handed_on(steps) =~= events_fetched(steps));
            },
            _ => {
                assert(events_fetched(steps) =~= events_fetched(earlier));
                assert(events_handed_on(steps) =~= events_handed_on(earlier));
            },
        }
    }
}

/// One step of a processor stage, on record. The counters before it are those after the step before, but
/// for what other stages have counted meanwhile.
pub ghost struct ProcessorRecord<P> {
    pub before: ProcessorRun<P>,
    pub event: ProcessorEvent<P>,
    pub m0: PipelineMetrics,
    pub after: ProcessorRun<P>,
    pub m1: PipelineMetrics,
    pub result: ProcessorMove<P>,
}

/// Where a processor stage is after these steps.
pub open spec fn processor_after<P>(
    start: ProcessorRun<P>,
    steps: Seq<ProcessorRecord<P>>,
) -> ProcessorRun<P> {
    if steps.len() == 0 {
        start
    } else {
        steps.last().after
    }
}

/// How many events count as processed after these steps, where `counter` did before.
pub open spec fn processed_after<P>(counter: u64, steps: Seq<ProcessorRecord<P>>) -> u64 {
    if steps.len() == 0 {
        counter
    } else {
        steps.last().m1.events_processed
    }
}

/// Whether a processor stage has gone through these steps, one after the other.
pub open spec fn processor_ran<P>(
    start: ProcessorRun<P>,
    counter: u64,
    steps: Seq<ProcessorRecord<P>>,
) -> bool
    decreases steps.len(),
{
    steps.len() == 0 || {
        let earlier = steps.drop_last();
        let step = steps.last();
        &&& processor_ran(start, counter, earlier)
        &&& step.before == processor_after(start, earlier)
        &&& step.m0.events_processed == processed_after(counter, earlier)
        &&& step.before.expects(step.event)
        &&& processor_reacts(
            step.before,
            step.event,
            step.m0,
            step.after,
            step.m1,
            step.result,
        )
    }
}

/// The events that have come, in order.
pub open spec fn events_received<P>(steps: Seq<ProcessorRecord<P>>) -> Seq<Event>
    decreases steps.len(),
{
    if steps.len() == 0 {
        seq![]
    } else {
        events_received(steps.drop_last()) + received_in(steps.last().event)
    }
}

/// The events that come with an event.
pub open spec fn received_in<P>(event: ProcessorEvent<P>) -> Seq<Event> {
    match event {
        ProcessorEvent::Received(events) => events@,
        _ => seq![],
    }
}

/// The events that the active processor and the canary have been given, counted.
pub open spec fn events_given<P>(steps: Seq<ProcessorRecord<P>>) -> Multiset<Event>
    decreases steps.len(),
{
    if steps.len() == 0 {
        Multiset::empty()
    } else {
        events_given(steps.drop_last()).add(given_in(steps.last().result.act))
    }
}

/// The events that the active processor or the canary is given.
pub open spec fn given_in(act: ProcessorAct) -> Multiset<Event> {
    match act {
        ProcessorAct::Process(events) | ProcessorAct::Try(events) => events@.to_multiset(),
        _ => Multiset::empty(),
    }
}

/// What the active processor and the canary have answered, in order.
pub open spec fn outputs_answered<P>(steps: Seq<ProcessorRecord<P>>) -> Seq<Output>
    decreases steps.len(),
{
    if steps.len() == 0 {
        seq![]
    } else {
        outputs_answered(steps.drop_last()) + answered_in(steps.last().event)
    }
}

/// The outputs of an answer.
pub open spec fn answered_in<P>(event: ProcessorEvent<P>) -> Seq<Output> {
    match event {
        ProcessorEvent::Processed(Ok(outputs)) => outputs@,
        _ => seq![],
    }
}

/// The outputs that have been handed on, in order.
pub open spec fn outputs_handed_on<P>(steps: Seq<ProcessorRecord<P>>) -> Seq<Output>
    decreases steps.len(),
{
    if steps.len() == 0 {
        seq![]
    } else {
        outputs_handed_on(steps.drop_last()) + handed_on_in(steps.last().result.act)
    }
}

/// The outputs that are handed on.
pub open spec fn handed_on_in(act: ProcessorAct) -> Seq<Output> {
    match act {
        ProcessorAct::HandOn(outputs) => outputs@,
        _ => seq![],
    }
}

/// How many events are under way in a stage.
spec fn under_way(phase: ProcessorPhase) -> nat {
    match phase {
        ProcessorPhase::Shadowing { count, .. } => count as nat,
        ProcessorPhase::Processing { count, .. } => count as nat,
        ProcessorPhase::Trying { count, .. } => count as nat,
        _ => 0,
    }
}

/// The events that are still to be given to a processor.
spec fn held_back(phase: ProcessorPhase) -> Multiset<Event> {
    match phase {
        ProcessorPhase::Shadowing { active, canary, .. } => active@.to_multiset().add(
            counted(canary),
        ),
        ProcessorPhase::Processing { canary, .. } => counted(canary),
        _ => Multiset::empty(),
    }
}

/// The outputs that are still to be handed on.
spec fn kept_back(phase: ProcessorPhase) -> Seq<Output> {
    match phase {
        ProcessorPhase::Trying { outputs, .. } => outputs@,
        _ => seq![],
    }
}

/// Whether a step is the last one of a stage that fails.
spec fn fails<P>(step: ProcessorRecord<P>) -> bool {
    step.result.act matches ProcessorAct::End(Err(_))
}

proof fn lemma_processes<P>(
    count: usize,
    active: Vec<Event>,
    canary: Option<Vec<Event>>,
    m0: PipelineMetrics,
    after: ProcessorRun<P>,
    m1: PipelineMetrics,
    r: ProcessorMove<P>,
)
    requires
        processes(count, active, canary, m0, after, m1, r),
    ensures
        given_in(r.act).add(held_back(after.phase)) == active@.to_multiset().add(counted(canary)),
        handed_on_in(r.act) + kept_back(after.phase) == Seq::<Output>::empty(),
        r.act is HandOn ==> under_way(after.phase) == 0 && m1.events_processed
            == m0.events_processed.wrapping_add(count as u64),
        r.act !is HandOn ==> under_way(after.phase) == count && m1.events_processed
            == m0.events_processed,
        r.act !is End,
{
    broadcast use vstd::seq_lib::group_to_multiset_ensures;

    if canary is Some && active@.len() == 0 {
        assert(active@.to_multiset() =~= Multiset::empty());
        if canary->0@.len() == 0 {
            assert(counted(canary) =~= Multiset::empty());
        }
    }
    assert(given_in(r.act).add(held_back(after.phase)) =~= active@.to_multiset().add(
        counted(canary),
    ));
    assert(handed_on_in(r.act) + kept_back(after.phase) =~= Seq::<Output>::empty());
}

/// A step neither loses nor adds anything.
proof fn lemma_processor_step<P>(step: ProcessorRecord<P>)
    requires
        step.before.expects(step.event),
        processor_reacts(
            step.before,
            step.event,
            step.m0,
            step.after,
            step.m1,
            step.result,
        ),
    ensures
        fails(step) ==> step.after.phase is Ended,
        !fails(step) ==> {
            let n = under_way(step.before.phase) + received_in(step.event).len();
            &&& n <= u64::MAX
            &&& given_in(step.result.act).add(held_back(step.after.phase)) == held_back(
                step.before.phase,
            ).add(received_in(step.event).to_multiset())
            &&& handed_on_in(step.result.act) + kept_back(step.after.phase) == kept_back(
                step.before.phase,
            ) + answered_in(step.event)
            &&& step.result.act is HandOn ==> under_way(step.after.phase) == 0
                && step.m1.events_processed == step.m0.events_processed.wrapping_add(n as u64)
            &&& step.result.act !is HandOn ==> under_way(step.after.phase) == n
                && step.m1.events_processed == step.m0.events_processed
        },
{
    broadcast use vstd::seq_lib::group_to_multiset_ensures;

    let none = Seq::<Event>::empty();
    assert(none.to_multiset() =~= Multiset::empty());
    let ProcessorRecord { before, event, m0, after, m1, result: r } = step;
    if !fails(step) {
        match (before.phase, event) {
            (ProcessorPhase::Receiving, ProcessorEvent::Received(events)) => {
                assert(events.len() == events@.len());
                let routed = choose|routed: Routed|
                    {
                        &&& #[trigger] before.stage.routes(events, routed)
                        &&& match routed.shadow {
                            Some(shadow) => {
                                &&& m1 == m0
                                &&& after.phase == ProcessorPhase::Shadowing {
                                    count: events@.len() as usize,
                                    active: routed.active,
                                    canary: routed.canary,
                                }
                                &&& r.act == ProcessorAct::Shadow(shadow)
                            },
                            None => processes(
                                events@.len() as usize,
                                routed.active,
                                routed.canary,
                                m0,
                                after,
                                m1,
                                r,
                            ),
                        }
                    };
                match routed.canary {
                    Some(_) => law_split_keeps_every_event(events@, before.stage.canary_pct),
                    None => assert(events@.to_multiset().add(Multiset::empty())
                        =~= events@.to_multiset()),
                }
                if routed.shadow is None {
                    lemma_processes(
                        events@.len() as usize,
                        routed.active,
                        routed.canary,
                        m0,
                        after,
                        m1,
                        r,
                    );
                }
            },
            (ProcessorPhase::Shadowing { count, active, canary }, ProcessorEvent::Shadowed) => {
                lemma_processes(count, active, canary, m0, after, m1, r);
            },
            (ProcessorPhase::Processing { count, canary }, _) => {
                if canary is Some && canary->0@.len() == 0 {
                    assert(counted(canary) =~= Multiset::empty());
                }
            },
            _ => {},
        }
        assert(given_in(r.act).add(held_back(after.phase)) =~= held_back(before.phase).add(
            received_in(event).to_multiset(),
        ));
        assert(handed_on_in(r.act) + kept_back(after.phase) =~= kept_back(before.phase)
            + answered_in(event));
    }
}

proof fn lemma_processor_ran<P>(
    start: ProcessorRun<P>,
    counter: u64,
    steps: Seq<ProcessorRecord<P>>,
)
    requires
        start.phase is Turning,
        processor_ran(start, counter, steps),
    ensures
        steps.len() > 0 && fails(steps.last()) ==> steps.last().after.phase is Ended,
        steps.len() == 0 || !fails(steps.last()) ==> {
            let phase = processor_after(start, steps).phase;
            let received = events_received(steps);
            &&& under_way(phase) <= received.len()
            &&& processed_after(counter, steps) == grown(
                counter,
                (received.len() - under_way(phase)) as nat,
            )
            &&& events_given(steps).add(held_back(phase)) == received.to_multiset()
            &&& outputs_handed_on(steps) + kept_back(phase) == outputs_answered(steps)
        },
    decreases steps.len(),
{
    broadcast use vstd::seq_lib::group_to_multiset_ensures;

    if steps.len() == 0 {
        assert(events_given(steps).add(held_back(start.phase)) =~= events_received(
            steps,
        ).to_multiset());
        assert(outputs_handed_on(steps) + kept_back(start.phase) =~= outputs_answered(steps));
    } else {
        let earlier = steps.drop_last();
        let step = steps.last();
        lemma_processor_ran(start, counter, earlier);
        lemma_processor_step(step);
        if !fails(step) {
            let came = received_in(step.event);
            let before = step.before.phase;
            let after = step.after.phase;
            vstd::seq_lib::lemma_multiset_commutative(events_received(earlier), came);
            let given = events_given(earlier);
            let now = given_in(step.result.act);
            assert(given.add(now).add(held_back(after)) =~= given.add(now.add(held_back(after))));
            assert(given.add(held_back(before).add(came.to_multiset())) =~= given.add(
                held_back(before),
            ).add(came.to_multiset()));
            assert(outputs_handed_on(steps) + kept_back(after) =~= outputs_answered(steps));
            lemma_grown(
                counter,
                (events_received(earlier).len() - under_way(before)) as nat,
                (under_way(before) + came.len()) as nat,
            );
        }
    }
}

/// A processor stage loses nothing, whatever upgrades and swaps come in between: at the start of
/// a turn, and when it has ended well, every event that has come counts as processed and has been
/// given to the active processor or the canary once, and everything that they answered has been
/// handed on, in order.
pub proof fn law_a_processor_stage_loses_nothing<P>(
    start: ProcessorRun<P>,
    counter: u64,
    steps: Seq<ProcessorRecord<P>>,
)
    requires
        start.phase is Turning,
        processor_ran(start, counter, steps),
        processor_after(start, steps).phase is Turning || steps.last().result.act
            == ProcessorAct::End(Ok(())),
    ensures
        processed_after(counter, steps) == grown(counter, events_received(steps).len()),
        events_given(steps) == events_received(steps).to_multiset(),
        outputs_handed_on(steps) == outputs_answered(steps),
{
    lemma_processor_ran(start, counter, steps);
    if steps.len() > 0 {
        lemma_processor_step(steps.last());
    }
    assert(events_given(steps).add(Multiset::empty()) =~= events_given(steps));
    assert(outputs_handed_on(steps) + Seq::<Output>::empty() =~= outputs_handed_on(steps));
}

/// One step of a sink stage, on record. The counters before it are those after the step before,
/// but for what other stages have counted meanwhile.
pub ghost struct SinkRecord {
    pub before: SinkRun,
    pub event: SinkEvent,
    pub now: u64,
    pub tuned: Option<Duration>,
    pub m0: PipelineMetrics,
    pub after: SinkRun,
    pub m1: PipelineMetrics,
    pub result: SinkStep,
}

/// Whether a sink stage gets from one step to the next: as it is, or with the checkpoint made that
/// was due.
pub open spec fn sink_stays(a: SinkRun, b: SinkRun) -> bool {
    b == (if a.phase is Checkpointing {
        SinkRun { phase: SinkPhase::Storing(a.phase->Checkpointing_0), ..a }
    } else {
        a
    })
}

/// Where a sink stage is after these steps.
pub open spec fn sink_after(start: SinkRun, steps: Seq<SinkRecord>) -> SinkRun {
    if steps.len() == 0 {
        start
    } else {
        steps.last().after
    }
}

/// How many outputs count as sent after these steps, where `counter` did before.
pub open spec fn sent_after(counter: u64, steps: Seq<SinkRecord>) -> u64 {
    if steps.len() == 0 {
        counter
    } else {
        steps.last().m1.outputs_sent
    }
}

/// How many events count as failed after these steps, where `counter` did before.
pub open spec fn failed_after(counter: u64, steps: Seq<SinkRecord>) -> u64 {
    if steps.len() == 0 {
        counter
    } else {
        steps.last().m1.events_failed
    }
}

/// Whether a sink stage has gone through these steps, one after the other.
pub open spec fn sink_ran(start: SinkRun, sent: u64, failed: u64, steps: Seq<SinkRecord>) -> bool
    decreases steps.len(),
{
    steps.len() == 0 || {
        let earlier = steps.drop_last();
        let step = steps.last();
        &&& sink_ran(start, sent, failed, earlier)
        &&& sink_stays(sink_after(start, earlier), step.before)
        &&& step.m0.outputs_sent == sent_after(sent, earlier)
        &&& step.m0.events_failed == failed_after(failed, earlier)
        &&& step.before.wf()
        &&& step.before.expects(step.event)
        &&& reacts(
            step.before,
            step.event,
            step.now,
            step.tuned,
            step.m0,
            step.after,
            step.m1,
            step.result,
        )
    }
}

/// The outputs that have come, in order.
pub open spec fn outputs_received(steps: Seq<SinkRecord>) -> Seq<Output>
    decreases steps.len(),
{
    if steps.len() == 0 {
        seq![]
    } else {
        outputs_received(steps.drop_last()) + received_by_sink(steps.last().event)
    }
}

/// The outputs that come with an event.
pub open spec fn received_by_sink(event: SinkEvent) -> Seq<Output> {
    match event {
        SinkEvent::Received(outputs) => outputs@,
        _ => seq![],
    }
}

/// The outputs that the sink has been given, in order, each for the first time.
pub open spec fn outputs_written(steps: Seq<SinkRecord>) -> Seq<Output>
    decreases steps.len(),
{
    if steps.len() == 0 {
        seq![]
    } else {
        outputs_written(steps.drop_last()) + (match steps.last().result.act {
            SinkAct::Write(outputs) => outputs@,
            _ => seq![],
        })
    }
}

/// How many outputs an answer accepts: those that are delivered and, of a batch that is written
/// for the first time, those that a flush is to deliver.
pub open spec fn accepted_in(step: SinkRecord) -> nat {
    match (step.before.phase, step.event) {
        (
            SinkPhase::Writing { .. },
            SinkEvent::Written(Ok(result)),
        ) => result.delivered@.len() + result.pending@.len(),
        (SinkPhase::Retrying { .. }, SinkEvent::Written(Ok(result))) => result.delivered@.len(),
        _ => 0,
    }
}

/// How many outputs the sink has accepted.
pub open spec fn outputs_accepted(steps: Seq<SinkRecord>) -> nat
    decreases steps.len(),
{
    if steps.len() == 0 {
        0
    } else {
        outputs_accepted(steps.drop_last()) + accepted_in(steps.last())
    }
}

/// How many outputs an answer refuses for good. Those that are written again are not among them.
pub open spec fn refused_in(step: SinkRecord) -> nat {
    match step.event {
        SinkEvent::Written(Ok(result)) => if step.after.phase is Retrying {
            0
        } else {
            result.failed@.len()
        },
        _ => 0,
    }
}

/// How many outputs the sink has refused for good.
pub open spec fn outputs_refused(steps: Seq<SinkRecord>) -> nat
    decreases steps.len(),
{
    if steps.len() == 0 {
        0
    } else {
        outputs_refused(steps.drop_last()) + refused_in(steps.last())
    }
}

/// How many outputs have been given to the sink, which has not answered.
pub open spec fn unanswered(phase: SinkPhase) -> nat {
    match phase {
        SinkPhase::Writing { batch, .. } => batch.count as nat,
        SinkPhase::Retrying { round, .. } => round.outputs@.len(),
        _ => 0,
    }
}

/// Whether an answer of the sink accepts or refuses every output that it was given, each once, and
/// every event that it refuses has one output to write again.
pub open spec fn answers_fully(step: SinkRecord) -> bool {
    match step.event {
        SinkEvent::Written(Ok(result)) => {
            &&& accepted_in(step) + result.failed@.len() == unanswered(step.before.phase)
            &&& step.after.phase is Retrying ==> unanswered(step.after.phase)
                == result.failed@.len()
        },
        _ => true,
    }
}

/// Whether the sink has answered like this all along.
pub open spec fn answered_fully(steps: Seq<SinkRecord>) -> bool {
    forall|i: int| 0 <= i < steps.len() ==> answers_fully(#[trigger] steps[i])
}

/// Whether a step is the last one of a sink stage that fails.
spec fn sink_fails(step: SinkRecord) -> bool {
    step.result.act matches SinkAct::End(Err(_))
}

/// How many outputs a step counts as sent.
spec fn credited_in(step: SinkRecord) -> nat {
    match step.event {
        SinkEvent::Written(Ok(answer)) => answer.delivered@.len(),
        SinkEvent::Flushed(Ok(_)) => step.before.task.pending_ids@.len(),
        _ => 0,
    }
}

/// What a step counts as sent had been accepted.
proof fn lemma_sink_credits(step: SinkRecord)
    requires
        step.before.expects(step.event),
        reacts(
            step.before,
            step.event,
            step.now,
            step.tuned,
            step.m0,
            step.after,
            step.m1,
            step.result,
        ),
    ensures
        sink_fails(step) ==> step.after.phase is Ended,
        !sink_fails(step) ==> {
            &&& credited_in(step) <= u64::MAX
            &&& step.m1.outputs_sent == step.m0.outputs_sent.wrapping_add(credited_in(step) as u64)
            &&& credited_in(step) + step.after.task.pending_ids@.len()
                == step.before.task.pending_ids@.len() + accepted_in(step)
        },
{
    let SinkRecord { before, event, after, .. } = step;
    assert(progress(after.task).pending_ids == after.task.pending_ids@);
    assert(before.task.pending_ids.len() == before.task.pending_ids@.len());
    match event {
        SinkEvent::Written(Ok(answer)) => {
            assert(answer.delivered.len() == answer.delivered@.len());
        },
        _ => {},
    }
}

/// What a step counts as failed has been refused for good.
proof fn lemma_sink_refuses(step: SinkRecord)
    requires
        step.before.expects(step.event),
        reacts(
            step.before,
            step.event,
            step.now,
            step.tuned,
            step.m0,
            step.after,
            step.m1,
            step.result,
        ),
        answers_fully(step),
        !sink_fails(step),
    ensures
        refused_in(step) <= u64::MAX,
        step.m1.events_failed == step.m0.events_failed.wrapping_add(refused_in(step) as u64),
        unanswered(step.after.phase) + accepted_in(step) + refused_in(step) == unanswered(
            step.before.phase,
        ) + received_by_sink(step.event).len(),
{
    match step.event {
        SinkEvent::Written(Ok(answer)) => {
            assert(answer.failed.len() == answer.failed@.len());
        },
        _ => {},
    }
}

proof fn lemma_sink_ran(start: SinkRun, sent: u64, failed: u64, steps: Seq<SinkRecord>)
    requires
        start.phase is Polling,
        start.task.pending_ids@.len() == 0,
        sink_ran(start, sent, failed, steps),
    ensures
        outputs_written(steps) == outputs_received(steps),
        steps.len() > 0 && sink_fails(steps.last()) ==> steps.last().after.phase is Ended,
        steps.len() == 0 || !sink_fails(steps.last()) ==> {
            let run = sink_after(start, steps);
            let accepted = outputs_accepted(steps);
            &&& run.task.pending_ids@.len() <= accepted
            &&& sent_after(sent, steps) == grown(
                sent,
                (accepted - run.task.pending_ids@.len()) as nat,
            )
            &&& answered_fully(steps) ==> {
                &&& failed_after(failed, steps) == grown(failed, outputs_refused(steps))
                &&& accepted + outputs_refused(steps) + unanswered(run.phase) == outputs_received(
                    steps,
                ).len()
            }
        },
    decreases steps.len(),
{
    if steps.len() > 0 {
        let earlier = steps.drop_last();
        let step = steps.last();
        lemma_sink_ran(start, sent, failed, earlier);
        lemma_sink_credits(step);
        assert(outputs_written(steps) =~= outputs_received(steps));
        if !sink_fails(step) {
            let waiting = step.before.task.pending_ids@.len();
            lemma_grown(sent, (outputs_accepted(earlier) - waiting) as nat, credited_in(step));
            if answered_fully(steps) {
                assert forall|i: int| 0 <= i < earlier.len() implies answers_fully(
                    #[trigger] earlier[i],
                ) by {
                    assert(earlier[i] == steps[i]);
                }
                assert(answers_fully(steps[steps.len() - 1]));
                lemma_sink_refuses(step);
                lemma_grown(failed, outputs_refused(earlier), refused_in(step));
            }
        }
    }
}

/// A sink stage loses nothing: every output that has come is given to the sink, in order, and when
/// the stage has ended well everything that the sink accepted counts as sent, once.
pub proof fn law_a_sink_stage_loses_nothing(
    start: SinkRun,
    sent: u64,
    failed: u64,
    steps: Seq<SinkRecord>,
)
    requires
        start.phase is Polling,
        start.task.pending_ids@.len() == 0,
        sink_ran(start, sent, failed, steps),
    ensures
        outputs_written(steps) == outputs_received(steps),
        steps.len() > 0 && steps.last().result.act == SinkAct::End(Ok(())) ==> sent_after(
            sent,
            steps,
        ) == grown(sent, outputs_accepted(steps)),
{
    lemma_sink_ran(start, sent, failed, steps);
    if steps.len() > 0 {
        let SinkRecord { before, event, now, tuned, m0, after, m1, result } = steps.last();
        if result.act == SinkAct::End(Ok(())) {
            law_a_clean_end_credits_everything(
                before,
                event,
                now,
                tuned,
                m0,
                after,
                m1,
                result,
            );
        }
    }
}

/// Of a sink that answers for every output that it is given, each output counts as sent or as
/// failed once the stage has ended well, and as one of them only, however often it was written.
pub proof fn law_every_output_is_sent_or_failed(
    start: SinkRun,
    sent: u64,
    failed: u64,
    steps: Seq<SinkRecord>,
)
    requires
        start.phase is Polling,
        start.task.pending_ids@.len() == 0,
        sink_ran(start, sent, failed, steps),
        answered_fully(steps),
        steps.len() > 0,
        steps.last().result.act == SinkAct::End(Ok(())),
    ensures
        sent_after(sent, steps) == grown(sent, outputs_accepted(steps)),
        failed_after(failed, steps) == grown(failed, outputs_refused(steps)),
        outputs_accepted(steps) + outputs_refused(steps) == outputs_received(steps).len(),
{
    lemma_sink_ran(start, sent, failed, steps);
    law_a_sink_stage_loses_nothing(start, sent, failed, steps);
}

/// A pipeline loses nothing. Where its stages have ended well, and what the source and the
/// processor stage handed on is what the next stage received, every event that the source has
/// answered with counts as received and as processed and has been given to a processor once,
/// everything that the processors answered has been given to the sink, in order, and everything
/// that the sink accepted counts as sent.
pub proof fn law_a_pipeline_loses_nothing<P>(
    m: PipelineMetrics,
    source: SourceRun,
    fetching: Seq<SourceRecord>,
    processor: ProcessorRun<P>,
    processing: Seq<ProcessorRecord<P>>,
    sink: SinkRun,
    writing: Seq<SinkRecord>,
)
    requires
        source_ran(source, m.events_received, fetching),
        processor.phase is Turning,
        processor_ran(processor, m.events_processed, processing),
        processing.len() > 0 && processing.last().result.act == ProcessorAct::End(Ok(())),
        sink.phase is Polling,
        sink.task.pending_ids@.len() == 0,
        sink_ran(sink, m.outputs_sent, m.events_failed, writing),
        writing.len() > 0 && writing.last().result.act == SinkAct::End(Ok(())),
        events_received(processing) == events_handed_on(fetching),
        outputs_received(writing) == outputs_handed_on(processing),
    ensures
        received_after(m.events_received, fetching) == grown(
            m.events_received,
            events_fetched(fetching).len(),
        ),
        processed_after(m.events_processed, processing) == grown(
            m.events_processed,
            events_fetched(fetching).len(),
        ),
        events_given(processing) == events_fetched(fetching).to_multiset(),
        outputs_written(writing) == outputs_answered(processing),
        sent_after(m.outputs_sent, writing) == grown(m.outputs_sent, outputs_accepted(writing)),
{
    law_a_source_stage_loses_nothing(source, m.events_received, fetching);
    law_a_processor_stage_loses_nothing(processor, m.events_processed, processing);
    law_a_sink_stage_loses_nothing(sink, m.outputs_sent, m.events_failed, writing);
}

/// One step of a pipeline without rings, on record.
pub ghost struct DirectRecord {
    pub before: DirectRun,
    pub event: DirectEvent,
    pub m0: PipelineMetrics,
    pub after: DirectRun,
    pub m1: PipelineMetrics,
    pub act: DirectAct,
}

/// Where a pipeline without rings is after these steps.
pub open spec fn direct_after(start: DirectRun, steps: Seq<DirectRecord>) -> DirectRun {
    if steps.len() == 0 {
        start
    } else {
        steps.last().after
    }
}

/// The counters of a pipeline without rings after these steps.
pub open spec fn direct_metrics(m: PipelineMetrics, steps: Seq<DirectRecord>) -> PipelineMetrics {
    if steps.len() == 0 {
        m
    } else {
        steps.last().m1
    }
}

/// Whether a pipeline without rings has gone through these steps, one after the other. The sink
/// may have confirmed outputs in between.
pub open spec fn direct_ran(start: DirectRun, m: PipelineMetrics, steps: Seq<DirectRecord>) -> bool
    decreases steps.len(),
{
    steps.len() == 0 || {
        let earlier = steps.drop_last();
        let step = steps.last();
        &&& direct_ran(start, m, earlier)
        &&& step.before == direct_after(start, earlier)
        &&& step.m0 == PipelineMetrics {
            outputs_acked: step.m0.outputs_acked,
            ..direct_metrics(m, earlier)
        }
        &&& step.before.expects(step.event)
        &&& direct_reacts(step.before, step.event, step.m0, step.after, step.m1, step.act)
    }
}

/// The events that the source has answered with, in order.
pub open spec fn direct_fetched(steps: Seq<DirectRecord>) -> Seq<Event>
    decreases steps.len(),
{
    if steps.len() == 0 {
        seq![]
    } else {
        direct_fetched(steps.drop_last()) + (match steps.last().event {
            DirectEvent::Fetched(Ok(events)) => events@,
            _ => seq![],
        })
    }
}

/// The events that the processor has been given, in order.
pub open spec fn direct_given(steps: Seq<DirectRecord>) -> Seq<Event>
    decreases steps.len(),
{
    if steps.len() == 0 {
        seq![]
    } else {
        direct_given(steps.drop_last()) + (match steps.last().act {
            DirectAct::Process(events) => events@,
            _ => seq![],
        })
    }
}

/// What the processor has answered, in order.
pub open spec fn direct_answered(steps: Seq<DirectRecord>) -> Seq<Output>
    decreases steps.len(),
{
    if steps.len() == 0 {
        seq![]
    } else {
        direct_answered(steps.drop_last()) + (match steps.last().event {
            DirectEvent::Processed(Ok(outputs)) => outputs@,
            _ => seq![],
        })
    }
}

/// The outputs that the sink has been given, in order, each for the first time.
pub open spec fn direct_written(steps: Seq<DirectRecord>) -> Seq<Output>
    decreases steps.len(),
{
    if steps.len() == 0 {
        seq![]
    } else {
        direct_written(steps.drop_last()) + (match steps.last().act {
            DirectAct::Write(outputs) => outputs@,
            _ => seq![],
        })
    }
}

/// How many events have been given to the processor, which has not answered.
pub open spec fn in_process(phase: DirectPhase) -> nat {
    match phase {
        DirectPhase::Processing(count) => count as nat,
        _ => 0,
    }
}

/// Whether the processor of a pipeline without rings has failed.
pub open spec fn processor_failed(steps: Seq<DirectRecord>) -> bool {
    steps.len() > 0 && steps.last().event is Processed && steps.last().event->Processed_0 is Err
}

/// A pipeline without rings loses nothing: every event that the source has answered with counts as
/// received and is given to the processor, and counts as processed unless the processor has failed
/// or is still at work on it; what the processor answers is given to the sink, in order.
pub proof fn law_a_direct_pipeline_loses_nothing(
    start: DirectRun,
    m: PipelineMetrics,
    steps: Seq<DirectRecord>,
)
    requires
        start.phase is Looking,
        direct_ran(start, m, steps),
    ensures
        direct_metrics(m, steps).events_received == grown(
            m.events_received,
            direct_fetched(steps).len(),
        ),
        direct_given(steps) == direct_fetched(steps),
        direct_written(steps) == direct_answered(steps),
        !processor_failed(steps) ==> {
            let n = in_process(direct_after(start, steps).phase);
            &&& n <= direct_fetched(steps).len()
            &&& direct_metrics(m, steps).events_processed == grown(
                m.events_processed,
                (direct_fetched(steps).len() - n) as nat,
            )
        },
    decreases steps.len(),
{
    if steps.len() > 0 {
        let earlier = steps.drop_last();
        let step = steps.last();
        law_a_direct_pipeline_loses_nothing(start, m, earlier);
        let fetched = direct_fetched(earlier).len();
        match step.event {
            DirectEvent::Fetched(Ok(events)) => {
                assert(events.len() == events@.len());
                lemma_grown(m.events_received, fetched, events@.len());
            },
            _ => {},
        }
        reveal_with_fuel(direct_ran, 2);
        let n = in_process(step.before.phase);
        lemma_grown(m.events_processed, (fetched - n) as nat, n);
        assert(direct_given(steps) =~= direct_fetched(steps));
        assert(direct_written(steps) =~= direct_answered(steps));
    }
}

} // verus!
