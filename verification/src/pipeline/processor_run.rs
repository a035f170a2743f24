//! The run of a processor stage: from what has happened to what is to be done next, until the
//! stage ends.
use vstd::multiset::Multiset;
use vstd::prelude::*;

use crate::error::AeonError;
use crate::pipeline::metrics::PipelineMetrics;
use crate::pipeline::processor_task::{
    law_split_keeps_every_event, merge_outputs, on_empty, DrainedStep, EmptyStep, ProcessorStage,
    Routed, UpgradeAction,
};
use crate::pipeline::source_task::batch_processed;
use crate::types::{Event, Output};

verus! {

/// What the stage waits for.
pub enum ProcessorPhase {
    /// The start of a turn.
    Turning,
    /// The next batch.
    Receiving,
    /// The green processor's answer; the rest of the batch is still to be processed.
    Shadowing { count: usize, active: Vec<Event>, canary: Option<Vec<Event>> },
    /// The active processor's answer; the canary's share is still to be processed.
    Processing { count: usize, canary: Option<Vec<Event>> },
    /// The canary's answer, to go behind these outputs.
    Trying { count: usize, outputs: Vec<Output> },
    /// Outputs to be in the ring.
    HandingOn,
    /// A processor that is to take the place of the active one, or the end of the pause.
    Drained,
    /// Nothing more.
    Ended,
}

/// What has happened.
pub enum ProcessorEvent<P> {
    /// A turn begins, with an upgrade that was asked for. A stage that is being shut down takes
    /// none, and goes on with what is still in the ring.
    Turn { shutdown: bool, action: Option<UpgradeAction<P>> },
    /// A batch has come.
    Received(Vec<Event>),
    /// No batch is there; so many slots of the sink's ring are free.
    Empty { paused: bool, sink_slots: usize, sink_capacity: usize },
    /// No batch will come.
    Closed,
    /// The green processor is done.
    Shadowed,
    /// The active processor, or the canary, has answered.
    Processed(Result<Vec<Output>, AeonError>),
    /// The outputs are in the ring.
    HandedOn,
    /// The stage is drained and has looked around.
    Looked { shutdown: bool, paused: bool, placed: Option<P> },
}

/// What is to be done next.
pub enum ProcessorAct {
    /// Begin a turn.
    Turn,
    /// Let others have their turn, and begin a turn.
    Wait,
    /// Ask for a batch.
    Receive,
    /// Have the green processor process these events, and drop what it answers.
    Shadow(Vec<Event>),
    /// Have the active processor process these events.
    Process(Vec<Event>),
    /// Have the canary process these events.
    Try(Vec<Event>),
    /// Record these outputs where a chain is kept, and hand them on.
    HandOn(Vec<Output>),
    /// Say that the pipeline is drained, and look around.
    Announce,
    /// Let others have their turn, and look around.
    Look,
    /// Stop, with this outcome.
    End(Result<(), AeonError>),
}

/// What is to be done next, and what before.
pub struct ProcessorMove<P> {
    /// The processor that was active, whose state goes to the one that is now.
    pub retired: Option<P>,
    /// Say that the upgrade has been carried out.
    pub upgraded: bool,
    /// Say that the swap has been carried out.
    pub swapped: bool,
    pub act: ProcessorAct,
}

impl<P> ProcessorMove<P> {
    /// Nothing comes before.
    pub open spec fn plain(&self) -> bool {
        self.retired is None && !self.upgraded && !self.swapped
    }

    fn only(act: ProcessorAct) -> (r: Self)
        ensures
            r.plain(),
            r.act == act,
    {
        ProcessorMove { retired: None, upgraded: false, swapped: false, act }
    }
}

/// The run of a processor stage.
pub struct ProcessorRun<P> {
    pub stage: ProcessorStage<P>,
    pub phase: ProcessorPhase,
}

impl<P> ProcessorRun<P> {
    /// Whether the stage waits for something like this.
    pub open spec fn expects(&self, event: ProcessorEvent<P>) -> bool {
        match event {
            ProcessorEvent::Turn { .. } => self.phase is Turning,
            ProcessorEvent::Received(_) => self.phase is Receiving,
            ProcessorEvent::Empty { .. } => self.phase is Receiving,
            ProcessorEvent::Closed => self.phase is Receiving,
            ProcessorEvent::Shadowed => self.phase is Shadowing,
            ProcessorEvent::Processed(_) => self.phase is Processing || self.phase is Trying,
            ProcessorEvent::HandedOn => self.phase is HandingOn,
            ProcessorEvent::Looked { .. } => self.phase is Drained,
        }
    }
}

/// A batch of `count` events is done: it counts as processed, and its outputs are handed on.
pub open spec fn hands_on<P>(
    count: usize,
    outputs: Seq<Output>,
    m0: PipelineMetrics,
    after: ProcessorRun<P>,
    m1: PipelineMetrics,
    r: ProcessorMove<P>,
) -> bool {
    &&& m1 == PipelineMetrics {
        events_processed: m0.events_processed.wrapping_add(count as u64),
        ..m0
    }
    &&& after.phase is HandingOn
    &&& r.act is HandOn
    &&& r.act->HandOn_0@ == outputs
}

/// The active processor is done: the canary gets its share, where it has one.
pub open spec fn tries_canary<P>(
    count: usize,
    outputs: Seq<Output>,
    canary: Option<Vec<Event>>,
    m0: PipelineMetrics,
    after: ProcessorRun<P>,
    m1: PipelineMetrics,
    r: ProcessorMove<P>,
) -> bool {
    if canary is Some && canary->0@.len() > 0 {
        &&& m1 == m0
        &&& after.phase is Trying
        &&& after.phase->Trying_count == count
        &&& after.phase->outputs@ == outputs
        &&& r.act == ProcessorAct::Try(canary->0)
    } else {
        hands_on(count, outputs, m0, after, m1, r)
    }
}

/// The active processor gets its events. Of a batch that is split, it is not bothered with none.
pub open spec fn processes<P>(
    count: usize,
    active: Vec<Event>,
    canary: Option<Vec<Event>>,
    m0: PipelineMetrics,
    after: ProcessorRun<P>,
    m1: PipelineMetrics,
    r: ProcessorMove<P>,
) -> bool {
    if canary is Some && active@.len() == 0 {
        tries_canary(count, seq![], canary, m0, after, m1, r)
    } else {
        &&& m1 == m0
        &&& after.phase == ProcessorPhase::Processing { count, canary }
        &&& r.act == ProcessorAct::Process(active)
    }
}

/// A batch has come: it is routed, and the green processor gets its copies first.
pub open spec fn begins<P>(
    before: ProcessorRun<P>,
    events: Vec<Event>,
    m0: PipelineMetrics,
    after: ProcessorRun<P>,
    m1: PipelineMetrics,
    r: ProcessorMove<P>,
) -> bool {
    exists|routed: Routed|
        {
            &&& #[trigger] before.stage.routes(events, routed)
            &&& match routed.shadow {
                Some(shadow) => {
                    &&& m1 == m0
                    &&& after.phase == ProcessorPhase::Shadowing {
                        count: events@.len() as usize,
                        active: routed.active,
                        canary: routed.canary,
                    }
                    &&& r.act == ProcessorAct::Shadow(shadow)
                },
                None => processes(
                    events@.len() as usize,
                    routed.active,
                    routed.canary,
                    m0,
                    after,
                    m1,
                    r,
                ),
            }
        }
}

/// What a processor stage makes of an event.
pub open spec fn processor_reacts<P>(
    before: ProcessorRun<P>,
    event: ProcessorEvent<P>,
    m0: PipelineMetrics,
    after: ProcessorRun<P>,
    m1: PipelineMetrics,
    r: ProcessorMove<P>,
) -> bool {
    match (before.phase, event) {
        (ProcessorPhase::Turning, ProcessorEvent::Turn { shutdown, action }) => {
            &&& m1 == m0
            &&& !r.swapped
            &&& after.phase is Receiving
            &&& r.act is Receive
            &&& if action is Some && !shutdown {
                &&& after.stage == before.stage.upgraded(action->0)
                &&& r.upgraded
                &&& r.retired == (if before.stage.replaces(action->0) {
                    Some(before.stage.current)
                } else {
                    None
                })
            } else {
                after.stage == before.stage && r.plain()
            }
        },
        (ProcessorPhase::Drained, ProcessorEvent::Looked { shutdown, paused, placed }) => {
            &&& m1 == m0
            &&& !r.upgraded
            &&& if shutdown || !paused {
                &&& after.stage == before.stage
                &&& after.phase is Turning
                &&& r.plain()
                &&& r.act is Wait
            } else {
                match placed {
                    Some(processor) => {
                        &&& after.stage == ProcessorStage { current: processor, ..before.stage }
                        &&& after.phase is Turning
                        &&& r.retired == Some(before.stage.current)
                        &&& r.swapped
                        &&& r.act is Wait
                    },
                    None => {
                        &&& after.stage == before.stage
                        &&& after.phase is Drained
                        &&& r.plain()
                        &&& r.act is Look
                    },
                }
            }
        },
        (phase, event) => {
            &&& after.stage == before.stage
            &&& r.plain()
            &&& match (phase, event) {
                (ProcessorPhase::Receiving, ProcessorEvent::Received(events)) => begins(
                    before,
                    events,
                    m0,
                    after,
                    m1,
                    r,
                ),
                (ProcessorPhase::Receiving, ProcessorEvent::Closed) => {
                    &&& m1 == m0
                    &&& after.phase is Ended
                    &&& r.act == ProcessorAct::End(Ok(()))
                },
                (
                    ProcessorPhase::Receiving,
                    ProcessorEvent::Empty { paused, sink_slots, sink_capacity },
                ) => {
                    &&& m1 == m0
                    &&& if paused && sink_slots == sink_capacity {
                        after.phase is Drained && r.act is Announce
                    } else {
                        after.phase is Turning && r.act is Wait
                    }
                },
                (
                    ProcessorPhase::Shadowing { count, active, canary },
                    ProcessorEvent::Shadowed,
                ) => processes(count, active, canary, m0, after, m1, r),
                (
                    ProcessorPhase::Processing { count, canary },
                    ProcessorEvent::Processed(Ok(outputs)),
                ) => tries_canary(count, outputs@, canary, m0, after, m1, r),
                (
                    ProcessorPhase::Trying { count, outputs },
                    ProcessorEvent::Processed(Ok(more)),
                ) => hands_on(count, outputs@ + more@, m0, after, m1, r),
                (_, ProcessorEvent::Processed(Err(e))) => {
                    &&& m1 == m0
                    &&& after.phase is Ended
                    &&& r.act == ProcessorAct::End(Err(e))
                },
                (ProcessorPhase::HandingOn, ProcessorEvent::HandedOn) => {
                    &&& m1 == m0
                    &&& after.phase is Turning
                    &&& r.act is Turn
                },
                _ => false,
            }
        },
    }
}

impl<P> ProcessorRun<P> {
    /// A run that starts with a turn of one processor.
    pub fn new(processor: P) -> (r: Self)
        ensures
            r.stage == (ProcessorStage {
                current: processor,
                green: None,
                canary: None,
                canary_pct: 0,
            }),
            r.phase is Turning,
    {
        ProcessorRun { stage: ProcessorStage::new(processor), phase: ProcessorPhase::Turning }
    }

    fn hand_on(&mut self, count: usize, outputs: Vec<Output>, metrics: &mut PipelineMetrics) -> (r:
        ProcessorMove<P>)
        ensures
            hands_on(count, outputs@, *old(metrics), *final(self), *final(metrics), r),
            final(self).stage == old(self).stage,
            r.plain(),
    {
        batch_processed(count, metrics);
        self.phase = ProcessorPhase::HandingOn;
        ProcessorMove::only(ProcessorAct::HandOn(outputs))
    }

    fn try_canary(
        &mut self,
        count: usize,
        outputs: Vec<Output>,
        canary: Option<Vec<Event>>,
        metrics: &mut PipelineMetrics,
    ) -> (r: ProcessorMove<P>)
        ensures
            tries_canary(count, outputs@, canary, *old(metrics), *final(self), *final(metrics), r),
            final(self).stage == old(self).stage,
            r.plain(),
    {
        if let Some(share) = canary {
            if share.len() > 0 {
                self.phase = ProcessorPhase::Trying { count, outputs };
                return ProcessorMove::only(ProcessorAct::Try(share));
            }
        }
        self.hand_on(count, outputs, metrics)
    }

    fn process(
        &mut self,
        count: usize,
        active: Vec<Event>,
        canary: Option<Vec<Event>>,
        metrics: &mut PipelineMetrics,
    ) -> (r: ProcessorMove<P>)
        ensures
            processes(count, active, canary, *old(metrics), *final(self), *final(metrics), r),
            final(self).stage == old(self).stage,
            r.plain(),
    {
        if canary.is_some() && active.len() == 0 {
            let outputs: Vec<Output> = Vec::new();
            proof {
                assert(outputs@ =~= seq![]);
            }
            self.try_canary(count, outputs, canary, metrics)
        } else {
            self.phase = ProcessorPhase::Processing { count, canary };
            ProcessorMove::only(ProcessorAct::Process(active))
        }
    }

    fn begin(&mut self, events: Vec<Event>, metrics: &mut PipelineMetrics) -> (r: ProcessorMove<P>)
        ensures
            begins(*old(self), events, *old(metrics), *final(self), *final(metrics), r),
            final(self).stage == old(self).stage,
            r.plain(),
    {
        let count: usize = events.len();
        let routed = self.stage.route(events);
        let ghost witness = routed;
        let Routed { active, shadow, canary } = routed;
        let r = match shadow {
            Some(shadow) => {
                self.phase = ProcessorPhase::Shadowing { count, active, canary };
                ProcessorMove::only(ProcessorAct::Shadow(shadow))
            },
            None => self.process(count, active, canary, metrics),
        };
        proof {
            assert(old(self).stage.routes(events, witness));
        }
        r
    }

    fn turn(&mut self, shutdown: bool, action: Option<UpgradeAction<P>>) -> (r: ProcessorMove<P>)
        requires
            old(self).phase is Turning,
        ensures
            forall|m: PipelineMetrics| #[trigger]
                processor_reacts(
                    *old(self),
                    (ProcessorEvent::Turn { shutdown, action }),
                    m,
                    *final(self),
                    m,
                    r,
                ),
    {
        self.phase = ProcessorPhase::Receiving;
        if shutdown {
            return ProcessorMove::only(ProcessorAct::Receive);
        }
        match action {
            Some(action) => ProcessorMove {
                retired: self.stage.apply(action),
                upgraded: true,
                swapped: false,
                act: ProcessorAct::Receive,
            },
            None => ProcessorMove::only(ProcessorAct::Receive),
        }
    }

    fn look(&mut self, shutdown: bool, paused: bool, placed: Option<P>) -> (r: ProcessorMove<P>)
        requires
            old(self).phase is Drained,
        ensures
            forall|m: PipelineMetrics| #[trigger]
                processor_reacts(
                    *old(self),
                    (ProcessorEvent::Looked { shutdown, paused, placed }),
                    m,
                    *final(self),
                    m,
                    r,
                ),
    {
        match self.stage.while_drained(paused && !shutdown, placed) {
            DrainedStep::Resume => {
                self.phase = ProcessorPhase::Turning;
                ProcessorMove::only(ProcessorAct::Wait)
            },
            DrainedStep::Swapped(retired) => {
                self.phase = ProcessorPhase::Turning;
                ProcessorMove {
                    retired: Some(retired),
                    upgraded: false,
                    swapped: true,
                    act: ProcessorAct::Wait,
                }
            },
            DrainedStep::Wait => ProcessorMove::only(ProcessorAct::Look),
        }
    }

    /// Takes note of what has happened, and says what is to be done next.
    pub fn next(&mut self, event: ProcessorEvent<P>, metrics: &mut PipelineMetrics) -> (r:
        ProcessorMove<P>)
        requires
            old(self).expects(event),
        ensures
            processor_reacts(*old(self), event, *old(metrics), *final(self), *final(metrics), r),
    {
        let event = match event {
            ProcessorEvent::Turn { shutdown, action } => return self.turn(shutdown, action),
            ProcessorEvent::Looked { shutdown, paused, placed } => {
                return self.look(shutdown, paused, placed);
            },
            event => event,
        };
        let mut phase = ProcessorPhase::Ended;
        std::mem::swap(&mut self.phase, &mut phase);
        match (phase, event) {
            (ProcessorPhase::Receiving, ProcessorEvent::Received(events)) => {
                self.begin(events, metrics)
            },
            (
                ProcessorPhase::Receiving,
                ProcessorEvent::Empty { paused, sink_slots, sink_capacity },
            ) => match on_empty(false, paused, sink_slots, sink_capacity) {
                EmptyStep::Drained => {
                    self.phase = ProcessorPhase::Drained;
                    ProcessorMove::only(ProcessorAct::Announce)
                },
                _ => {
                    self.phase = ProcessorPhase::Turning;
                    ProcessorMove::only(ProcessorAct::Wait)
                },
            },
            (
                ProcessorPhase::Shadowing { count, active, canary },
                ProcessorEvent::Shadowed,
            ) => self.process(count, active, canary, metrics),
            (
                ProcessorPhase::Processing { count, canary },
                ProcessorEvent::Processed(Ok(outputs)),
            ) => self.try_canary(count, outputs, canary, metrics),
            (
                ProcessorPhase::Trying { count, outputs },
                ProcessorEvent::Processed(Ok(more)),
            ) => self.hand_on(count, merge_outputs(outputs, more), metrics),
            (_, ProcessorEvent::Processed(Err(e))) => ProcessorMove::only(
                ProcessorAct::End(Err(e)),
            ),
            (ProcessorPhase::HandingOn, ProcessorEvent::HandedOn) => {
                self.phase = ProcessorPhase::Turning;
                ProcessorMove::only(ProcessorAct::Turn)
            },
            _ => ProcessorMove::only(ProcessorAct::End(Ok(()))),
        }
    }
}

/// A stage ends well only once no batch will come and none is left in the ring: a shutdown drops
/// nothing that is under way.
pub proof fn law_a_clean_end_leaves_no_batch<P>(
    before: ProcessorRun<P>,
    event: ProcessorEvent<P>,
    m0: PipelineMetrics,
    after: ProcessorRun<P>,
    m1: PipelineMetrics,
    r: ProcessorMove<P>,
)
    requires
        processor_reacts(before, event, m0, after, m1, r),
        r.act == ProcessorAct::End(Ok(())),
    ensures
        event is Closed,
{
}

/// The events of a share, counted.
pub open spec fn counted(share: Option<Vec<Event>>) -> Multiset<Event> {
    match share {
        Some(events) => events@.to_multiset(),
        None => Multiset::empty(),
    }
}

/// The events that the active processor and the canary are still to be given.
pub open spec fn due<P>(run: ProcessorRun<P>, act: ProcessorAct) -> Multiset<Event> {
    match (run.phase, act) {
        (ProcessorPhase::Shadowing { active, canary, .. }, _) => active@.to_multiset().add(
            counted(canary),
        ),
        (
            ProcessorPhase::Processing { canary, .. },
            ProcessorAct::Process(events),
        ) => events@.to_multiset().add(counted(canary)),
        (ProcessorPhase::Trying { .. }, ProcessorAct::Try(events)) => events@.to_multiset(),
        _ => Multiset::empty(),
    }
}

proof fn lemma_due<P>(
    count: usize,
    active: Vec<Event>,
    canary: Option<Vec<Event>>,
    m0: PipelineMetrics,
    after: ProcessorRun<P>,
    m1: PipelineMetrics,
    r: ProcessorMove<P>,
)
    requires
        processes(count, active, canary, m0, after, m1, r),
    ensures
        due(after, r.act) == active@.to_multiset().add(counted(canary)),
{
    broadcast use vstd::seq_lib::group_to_multiset_ensures;

    if canary is Some && active@.len() == 0 {
        assert(active@.to_multiset() =~= Multiset::empty());
        if canary->0@.len() == 0 {
            assert(counted(canary) =~= Multiset::empty());
        }
        assert(due(after, r.act) =~= active@.to_multiset().add(counted(canary)));
    }
}

/// Every event of a batch is given to the active processor or to the canary, and to one of them
/// only, with and without a green processor.
pub proof fn law_every_event_is_processed_once<P>(
    before: ProcessorRun<P>,
    events: Vec<Event>,
    m0: PipelineMetrics,
    after: ProcessorRun<P>,
    m1: PipelineMetrics,
    r: ProcessorMove<P>,
)
    requires
        before.phase is Receiving,
        processor_reacts(before, ProcessorEvent::Received(events), m0, after, m1, r),
    ensures
        due(after, r.act) == events@.to_multiset(),
{
    let routed = choose|routed: Routed|
        {
            &&& #[trigger] before.stage.routes(events, routed)
            &&& match routed.shadow {
                Some(shadow) => {
                    &&& m1 == m0
                    &&& after.phase == ProcessorPhase::Shadowing {
                        count: events@.len() as usize,
                        active: routed.active,
                        canary: routed.canary,
                    }
                    &&& r.act == ProcessorAct::Shadow(shadow)
                },
                None => processes(
                    events@.len() as usize,
                    routed.active,
                    routed.canary,
                    m0,
                    after,
                    m1,
                    r,
                ),
            }
        };
    if routed.shadow is None {
        lemma_due(events@.len() as usize, routed.active, routed.canary, m0, after, m1, r);
    }
    match routed.canary {
        Some(_) => law_split_keeps_every_event(events@, before.stage.canary_pct),
        None => assert(events@.to_multiset().add(Multiset::empty()) =~= events@.to_multiset()),
    }
}

/// What the green processor does takes nothing from the others.
pub proof fn law_shadowing_takes_nothing<P>(
    before: ProcessorRun<P>,
    m0: PipelineMetrics,
    after: ProcessorRun<P>,
    m1: PipelineMetrics,
    r: ProcessorMove<P>,
)
    requires
        before.phase is Shadowing,
        processor_reacts(before, ProcessorEvent::Shadowed, m0, after, m1, r),
    ensures
        due(after, r.act) == before.phase->active@.to_multiset().add(
            counted(before.phase->Shadowing_canary),
        ),
{
    lemma_due(
        before.phase->Shadowing_count,
        before.phase->active,
        before.phase->Shadowing_canary,
        m0,
        after,
        m1,
        r,
    );
}

/// A drain is announced exactly where the pipeline is paused, no batch is there and every slot of
/// the sink's ring is free; otherwise the stage looks again later.
pub proof fn law_a_drain_is_announced_when_all_is_empty<P>(
    before: ProcessorRun<P>,
    paused: bool,
    sink_slots: usize,
    sink_capacity: usize,
    m0: PipelineMetrics,
    after: ProcessorRun<P>,
    m1: PipelineMetrics,
    r: ProcessorMove<P>,
)
    requires
        before.phase is Receiving,
        processor_reacts(
            before,
            (ProcessorEvent::Empty { paused, sink_slots, sink_capacity }),
            m0,
            after,
            m1,
            r,
        ),
    ensures
        r.act is Announce <==> paused && sink_slots == sink_capacity,
        r.act is Announce <==> after.phase is Drained,
        !(r.act is Announce) ==> r.act is Wait && after.phase is Turning,
        after.stage == before.stage,
        m1 == m0,
{
}

/// While a stage is drained it swaps only while the pipeline is paused and only for a processor
/// that was placed: that one is then active, the one that was is handed out, and nothing else of
/// the stage changes.
pub proof fn law_a_drained_stage_swaps_what_was_placed<P>(
    before: ProcessorRun<P>,
    shutdown: bool,
    paused: bool,
    placed: Option<P>,
    m0: PipelineMetrics,
    after: ProcessorRun<P>,
    m1: PipelineMetrics,
    r: ProcessorMove<P>,
)
    requires
        before.phase is Drained,
        processor_reacts(
            before,
            (ProcessorEvent::Looked { shutdown, paused, placed }),
            m0,
            after,
            m1,
            r,
        ),
    ensures
        r.swapped <==> paused && !shutdown && placed is Some,
        r.swapped ==> after.stage.current == placed->0 && r.retired == Some(before.stage.current),
        !r.swapped ==> after.stage == before.stage && r.retired is None,
        after.stage.green == before.stage.green,
        after.stage.canary == before.stage.canary,
        after.stage.canary_pct == before.stage.canary_pct,
        after.phase is Drained <==> paused && !shutdown && placed is None,
        !r.upgraded,
        m1 == m0,
{
}

/// An upgrade that was asked for is carried out at the start of a turn, unless the stage is being
/// shut down; a batch is asked for either way, and nothing is counted.
pub proof fn law_upgrades_come_between_batches<P>(
    before: ProcessorRun<P>,
    shutdown: bool,
    action: Option<UpgradeAction<P>>,
    m0: PipelineMetrics,
    after: ProcessorRun<P>,
    m1: PipelineMetrics,
    r: ProcessorMove<P>,
)
    requires
        before.phase is Turning,
        processor_reacts(before, (ProcessorEvent::Turn { shutdown, action }), m0, after, m1, r),
    ensures
        r.act is Receive,
        after.phase is Receiving,
        !r.swapped,
        m1 == m0,
        r.upgraded <==> action is Some && !shutdown,
        !r.upgraded ==> after.stage == before.stage && r.retired is None,
        r.upgraded ==> after.stage == before.stage.upgraded(action->0),
        r.retired is Some <==> r.upgraded && before.stage.replaces(action->0),
        r.upgraded ==> match action->0 {
            UpgradeAction::StartBlueGreen(p) => after.stage.green == Some(p) && after.stage.current
                == before.stage.current && r.retired is None,
            UpgradeAction::StartCanary(p, pct) => after.stage.canary == Some(p)
                && after.stage.canary_pct == pct && after.stage.current == before.stage.current
                && r.retired is None,
            UpgradeAction::SetCanaryPct(pct) => after.stage.canary_pct == pct
                && after.stage.current == before.stage.current && after.stage.canary
                == before.stage.canary && r.retired is None,
            UpgradeAction::CutoverBlueGreen => before.stage.green is Some ==> after.stage.current
                == before.stage.green->0 && r.retired == Some(before.stage.current),
            UpgradeAction::CompleteCanary => before.stage.canary is Some ==> after.stage.current
                == before.stage.canary->0 && r.retired == Some(before.stage.current),
            UpgradeAction::Rollback => after.stage.current == before.stage.current
                && after.stage.green is None && after.stage.canary is None && r.retired is None,
        },
{
}

/// A processor that fails ends the stage with its own error; the stage ends in no other way but
/// once no batch will come.
pub proof fn law_a_stage_ends_with_the_processors_error<P>(
    before: ProcessorRun<P>,
    event: ProcessorEvent<P>,
    m0: PipelineMetrics,
    after: ProcessorRun<P>,
    m1: PipelineMetrics,
    r: ProcessorMove<P>,
)
    requires
        before.expects(event),
        processor_reacts(before, event, m0, after, m1, r),
    ensures
        event matches ProcessorEvent::Processed(Err(e)) ==> r.act == ProcessorAct::End(Err(e)),
        event is Closed ==> r.act == ProcessorAct::End(Ok(())),
        r.act is End ==> event is Closed || event is Processed && event->Processed_0 is Err,
        r.act is End <==> after.phase is Ended,
{
}

/// The outputs of a batch that was split are those of the active processor and then those of the
/// canary; of one that was not, those of the active processor.
pub proof fn law_outputs_are_handed_on_together<P>(
    before: ProcessorRun<P>,
    answer: Vec<Output>,
    m0: PipelineMetrics,
    after: ProcessorRun<P>,
    m1: PipelineMetrics,
    r: ProcessorMove<P>,
)
    requires
        processor_reacts(before, ProcessorEvent::Processed(Ok(answer)), m0, after, m1, r),
    ensures
        before.phase matches ProcessorPhase::Trying { count, outputs } ==> r.act is HandOn
            && r.act->HandOn_0@ == outputs@ + answer@ && m1.events_processed
            == m0.events_processed.wrapping_add(count as u64),
        before.phase matches ProcessorPhase::Processing { count, canary: None } ==> r.act is HandOn
            && r.act->HandOn_0@ == answer@ && m1.events_processed
            == m0.events_processed.wrapping_add(count as u64),
        before.phase matches ProcessorPhase::Processing { count, canary: Some(share) } ==> share@.len()
            > 0 ==> {
            &&& r.act == ProcessorAct::Try(share)
            &&& m1 == m0
            &&& after.phase matches ProcessorPhase::Trying { count: all, outputs } && all == count
                && outputs@ == answer@
        },
        before.phase matches ProcessorPhase::Processing { count, canary: Some(share) } ==> share@.len()
            == 0 ==> r.act is HandOn && r.act->HandOn_0@ == answer@ && m1.events_processed
            == m0.events_processed.wrapping_add(count as u64),
        after.stage == before.stage,
        m1 == (PipelineMetrics { events_processed: m1.events_processed, ..m0 }),
{
}

/// A batch goes where it is routed: to the green processor first, where there is one; then to the
/// active one, unless nothing is left for it, and what is the canary's is kept for the canary. It
/// counts as processed only once its outputs are handed on.
pub proof fn law_a_batch_goes_where_it_is_routed<P>(
    before: ProcessorRun<P>,
    events: Vec<Event>,
    m0: PipelineMetrics,
    after: ProcessorRun<P>,
    m1: PipelineMetrics,
    r: ProcessorMove<P>,
) -> (routed: Routed)
    requires
        before.phase is Receiving,
        processor_reacts(before, ProcessorEvent::Received(events), m0, after, m1, r),
    ensures
        before.stage.routes(events, routed),
        after.stage == before.stage,
        r.plain(),
        r.act is Shadow <==> routed.shadow is Some,
        routed.shadow matches Some(shadow) ==> {
            &&& r.act == ProcessorAct::Shadow(shadow)
            &&& after.phase matches ProcessorPhase::Shadowing { count, active, canary } && {
                &&& count == events@.len() as usize
                &&& active == routed.active
                &&& canary == routed.canary
            }
        },
        routed.shadow is None && (routed.canary is None || routed.active@.len() > 0) ==> {
            &&& r.act == ProcessorAct::Process(routed.active)
            &&& after.phase matches ProcessorPhase::Processing { count, canary } && {
                &&& count == events@.len() as usize
                &&& canary == routed.canary
            }
        },
        routed.shadow is None && routed.canary is Some && routed.active@.len() == 0
            && routed.canary->0@.len() > 0 ==> {
            &&& r.act == ProcessorAct::Try(routed.canary->0)
            &&& after.phase matches ProcessorPhase::Trying { count, outputs } && {
                &&& count == events@.len() as usize
                &&& outputs@.len() == 0
            }
        },
        r.act is HandOn ==> r.act->HandOn_0@.len() == 0 && m1 == (PipelineMetrics {
            events_processed: m0.events_processed.wrapping_add(events@.len() as usize as u64),
            ..m0
        }),
        !(r.act is HandOn) ==> m1 == m0,
{
    choose|routed: Routed|
        {
            &&& #[trigger] before.stage.routes(events, routed)
            &&& match routed.shadow {
                Some(shadow) => {
                    &&& m1 == m0
                    &&& after.phase == ProcessorPhase::Shadowing {
                        count: events@.len() as usize,
                        active: routed.active,
                        canary: routed.canary,
                    }
                    &&& r.act == ProcessorAct::Shadow(shadow)
                },
                None => processes(
                    events@.len() as usize,
                    routed.active,
                    routed.canary,
                    m0,
                    after,
                    m1,
                    r,
                ),
            }
        }
}

/// Once the green processor has had its copies, the active one and the canary get what was kept
/// for them, in that order.
pub proof fn law_a_shadowed_batch_goes_on<P>(
    before: ProcessorRun<P>,
    m0: PipelineMetrics,
    after: ProcessorRun<P>,
    m1: PipelineMetrics,
    r: ProcessorMove<P>,
)
    requires
        before.phase is Shadowing,
        processor_reacts(before, ProcessorEvent::Shadowed, m0, after, m1, r),
    ensures
        ({
            let active = before.phase->active;
            let canary = before.phase->Shadowing_canary;
            let total = before.phase->Shadowing_count;
            &&& after.stage == before.stage
            &&& canary is None || active@.len() > 0 ==> {
                &&& r.act == ProcessorAct::Process(active)
                &&& after.phase == (ProcessorPhase::Processing { count: total, canary })
                &&& m1 == m0
            }
            &&& canary is Some && active@.len() == 0 && canary->0@.len() > 0 ==> {
                &&& r.act == ProcessorAct::Try(canary->0)
                &&& after.phase matches ProcessorPhase::Trying { count, outputs } && count == total
                    && outputs@.len() == 0
                &&& m1 == m0
            }
            &&& canary is Some && active@.len() == 0 && canary->0@.len() == 0 ==> {
                &&& r.act is HandOn
                &&& r.act->HandOn_0@.len() == 0
                &&& m1.events_processed == m0.events_processed.wrapping_add(total as u64)
            }
        }),
{
}

/// Once outputs are handed on, the next turn begins; nothing is counted, and the processors stay.
pub proof fn law_a_turn_follows_a_batch<P>(
    before: ProcessorRun<P>,
    m0: PipelineMetrics,
    after: ProcessorRun<P>,
    m1: PipelineMetrics,
    r: ProcessorMove<P>,
)
    requires
        before.phase is HandingOn,
        processor_reacts(before, ProcessorEvent::HandedOn, m0, after, m1, r),
    ensures
        r.act is Turn,
        after.phase is Turning,
        after.stage == before.stage,
        r.retired is None && !r.upgraded && !r.swapped,
        m1 == m0,
{
}

} // verus!
