//! The run of a source stage: from what has happened to what is to be done next, until the stage
//! ends.
use vstd::prelude::*;

use crate::error::AeonError;
use crate::pipeline::metrics::PipelineMetrics;
use crate::pipeline::source_task::{
    fetch_step, on_fetched, FetchStep, SourceStage, SourceStep,
};
use crate::types::{Event, SourceKind};

verus! {

/// What the stage finds when it looks around.
#[derive(Debug, Clone, Copy, PartialEq, Eq, Structural)]
pub struct Surroundings {
    pub shutdown: bool,
    /// The node's partitions have changed since the source was last told.
    pub partitions_changed: bool,
    pub paused: bool,
    /// The body store is over its budget.
    pub over_budget: bool,
    /// The partition is being handed over.
    pub frozen: bool,
}

/// What the stage waits for.
#[derive(Debug, Clone, Copy, PartialEq, Eq, Structural)]
pub enum SourcePhase {
    Looking,
    Reassigning,
    Fetching,
    HandingOn,
    Ended,
}

/// What has happened.
pub enum SourceEvent {
    /// The stage has looked around.
    Looked(Surroundings),
    /// The source has answered to its partitions.
    Reassigned(Result<(), AeonError>),
    /// The source has answered with a batch; the pipeline may have been paused meanwhile.
    Fetched { batch: Result<Vec<Event>, AeonError>, paused: bool },
    /// The batch is in the ring.
    HandedOn,
}

/// What is to be done next.
pub enum SourceAct {
    /// Look around.
    Look,
    /// Hand the node's partitions to the source.
    Reassign,
    /// Raise the pressure gauges, sleep, and look around.
    Throttle,
    /// Sleep, and look around.
    Sleep,
    /// Take a source that has been placed, let others have their turn, and look around.
    Pause,
    /// Let others have their turn, and look around.
    Wait,
    /// Ask the source for a batch.
    Fetch,
    /// Hand this batch on.
    HandOn(Vec<Event>),
    /// Stop, with this outcome.
    End(Result<(), AeonError>),
}

/// What is to be done next, and whether the pressure gauges are lowered before.
pub struct SourceMove {
    pub relieved: bool,
    pub act: SourceAct,
}

/// The run of a source stage.
pub struct SourceRun {
    pub stage: SourceStage,
    pub kind: SourceKind,
    pub phase: SourcePhase,
}

impl SourceRun {
    /// Whether the stage waits for something like this.
    pub open spec fn expects(&self, event: SourceEvent) -> bool {
        match event {
            SourceEvent::Looked(_) => self.phase is Looking,
            SourceEvent::Reassigned(_) => self.phase is Reassigning,
            SourceEvent::Fetched { .. } => self.phase is Fetching,
            SourceEvent::HandedOn => self.phase is HandingOn,
        }
    }

    /// A run that starts by looking around.
    pub fn new(kind: SourceKind) -> (r: Self)
        ensures
            !r.stage.throttled,
            r.kind == kind,
            r.phase is Looking,
    {
        SourceRun { stage: SourceStage::new(), kind, phase: SourcePhase::Looking }
    }

    /// Takes note that another source, of some kind, has taken the place of this one.
    pub fn swapped(&mut self, kind: SourceKind)
        ensures
            *final(self) == (SourceRun { kind, ..*old(self) }),
    {
        self.kind = kind;
    }
}

/// The stage has looked around. Changed partitions go to the source before anything else; a
/// paused stage waits for its source to be replaced; otherwise the budget and the write gate
/// decide.
pub open spec fn on_looked(
    before: SourceRun,
    found: Surroundings,
    after: SourceRun,
    r: SourceMove,
) -> bool {
    let (stage, turn) = before.stage.next(found.shutdown, found.over_budget, found.frozen);
    if !found.shutdown && found.partitions_changed {
        &&& after == SourceRun { phase: SourcePhase::Reassigning, ..before }
        &&& !r.relieved
        &&& r.act is Reassign
    } else if !found.shutdown && found.paused {
        &&& after == before
        &&& !r.relieved
        &&& r.act is Pause
    } else {
        &&& after.stage == stage
        &&& after.kind == before.kind
        &&& r.relieved == turn.relieved
        &&& match turn.step {
            SourceStep::Stop => after.phase is Ended && r.act == SourceAct::End(Ok(())),
            SourceStep::Throttle => after.phase is Looking && r.act is Throttle,
            SourceStep::Sleep => after.phase is Looking && r.act is Sleep,
            SourceStep::Yield => after.phase is Looking && r.act is Pause,
            SourceStep::Fetch => after.phase is Fetching && r.act is Fetch,
        }
    }
}

/// The source has answered with a batch, which is handed on. An empty one ends a pull source.
pub open spec fn on_batch(
    before: SourceRun,
    events: Vec<Event>,
    paused: bool,
    m0: PipelineMetrics,
    after: SourceRun,
    m1: PipelineMetrics,
    r: SourceMove,
) -> bool {
    &&& m1 == PipelineMetrics {
        events_received: m0.events_received.wrapping_add(events@.len() as u64),
        ..m0
    }
    &&& after == SourceRun { phase: after.phase, ..before }
    &&& !r.relieved
    &&& match fetch_step(events@.len(), before.kind, paused) {
        FetchStep::Stop => after.phase is Ended && r.act == SourceAct::End(Ok(())),
        FetchStep::Yield => after.phase is Looking && r.act is Wait,
        FetchStep::Again => after.phase is Looking && r.act is Look,
        FetchStep::Forward => after.phase is HandingOn && r.act == SourceAct::HandOn(events),
    }
}

/// What a source stage makes of an event.
pub open spec fn source_reacts(
    before: SourceRun,
    event: SourceEvent,
    m0: PipelineMetrics,
    after: SourceRun,
    m1: PipelineMetrics,
    r: SourceMove,
) -> bool {
    match event {
        SourceEvent::Looked(found) => m1 == m0 && on_looked(before, found, after, r),
        SourceEvent::Fetched { batch: Ok(events), paused } => on_batch(
            before,
            events,
            paused,
            m0,
            after,
            m1,
            r,
        ),
        SourceEvent::Reassigned(Err(e)) | SourceEvent::Fetched { batch: Err(e), .. } => {
            &&& m1 == m0
            &&& after == SourceRun { phase: SourcePhase::Ended, ..before }
            &&& !r.relieved
            &&& r.act == SourceAct::End(Err(e))
        },
        SourceEvent::Reassigned(Ok(_)) | SourceEvent::HandedOn => {
            &&& m1 == m0
            &&& after == SourceRun { phase: SourcePhase::Looking, ..before }
            &&& !r.relieved
            &&& r.act is Look
        },
    }
}

impl SourceRun {
    fn looked(&mut self, found: Surroundings) -> (r: SourceMove)
        requires
            old(self).phase is Looking,
            found.shutdown || !found.partitions_changed,
        ensures
            on_looked(*old(self), found, *final(self), r),
    {
        let turn = self.stage.managed_turn(
            found.shutdown,
            found.paused,
            found.over_budget,
            found.frozen,
        );
        let act = match turn.step {
            SourceStep::Stop => {
                self.phase = SourcePhase::Ended;
                SourceAct::End(Ok(()))
            },
            SourceStep::Throttle => SourceAct::Throttle,
            SourceStep::Sleep => SourceAct::Sleep,
            SourceStep::Yield => SourceAct::Pause,
            SourceStep::Fetch => {
                self.phase = SourcePhase::Fetching;
                SourceAct::Fetch
            },
        };
        SourceMove { relieved: turn.relieved, act }
    }

    fn batch_came(&mut self, events: Vec<Event>, paused: bool, metrics: &mut PipelineMetrics) -> (r:
        SourceMove)
        ensures
            on_batch(*old(self), events, paused, *old(metrics), *final(self), *final(metrics), r),
    {
        let act = match on_fetched(events.len(), self.kind, paused, metrics) {
            FetchStep::Stop => {
                self.phase = SourcePhase::Ended;
                SourceAct::End(Ok(()))
            },
            FetchStep::Yield => {
                self.phase = SourcePhase::Looking;
                SourceAct::Wait
            },
            FetchStep::Again => {
                self.phase = SourcePhase::Looking;
                SourceAct::Look
            },
            FetchStep::Forward => {
                self.phase = SourcePhase::HandingOn;
                SourceAct::HandOn(events)
            },
        };
        SourceMove { relieved: false, act }
    }

    /// Takes note of what has happened, and says what is to be done next.
    pub fn next(&mut self, event: SourceEvent, metrics: &mut PipelineMetrics) -> (r: SourceMove)
        requires
            old(self).expects(event),
        ensures
            source_reacts(*old(self), event, *old(metrics), *final(self), *final(metrics), r),
    {
        match event {
            SourceEvent::Looked(found) => if !found.shutdown && found.partitions_changed {
                self.phase = SourcePhase::Reassigning;
                SourceMove { relieved: false, act: SourceAct::Reassign }
            } else {
                self.looked(found)
            },
            SourceEvent::Fetched { batch: Ok(events), paused } => {
                self.batch_came(events, paused, metrics)
            },
            SourceEvent::Reassigned(Err(e)) | SourceEvent::Fetched { batch: Err(e), .. } => {
                self.phase = SourcePhase::Ended;
                SourceMove { relieved: false, act: SourceAct::End(Err(e)) }
            },
            SourceEvent::Reassigned(Ok(_)) | SourceEvent::HandedOn => {
                self.phase = SourcePhase::Looking;
                SourceMove { relieved: false, act: SourceAct::Look }
            },
        }
    }
}

/// A stage asks for no batch before the last one is in the ring, so that none is lost: what a
/// source has handed out is the next thing to be handed on, as it came.
pub proof fn law_every_batch_is_handed_on(
    before: SourceRun,
    events: Vec<Event>,
    paused: bool,
    m0: PipelineMetrics,
    after: SourceRun,
    m1: PipelineMetrics,
    r: SourceMove,
)
    requires
        source_reacts(
            before,
            (SourceEvent::Fetched { batch: Ok(events), paused }),
            m0,
            after,
            m1,
            r,
        ),
        events@.len() > 0,
    ensures
        r.act == SourceAct::HandOn(events),
        after.phase is HandingOn,
        forall|other: SourceEvent| #[trigger] after.expects(other) ==> other is HandedOn,
{
}

/// A stage that is being shut down asks for no further batch.
pub proof fn law_shutdown_stops_fetching(
    before: SourceRun,
    found: Surroundings,
    m0: PipelineMetrics,
    after: SourceRun,
    m1: PipelineMetrics,
    r: SourceMove,
)
    requires
        source_reacts(before, SourceEvent::Looked(found), m0, after, m1, r),
        found.shutdown,
    ensures
        r.act == SourceAct::End(Ok(())),
{
}

/// A paused stage asks for no batch.
pub proof fn law_a_paused_stage_fetches_nothing(
    before: SourceRun,
    found: Surroundings,
    m0: PipelineMetrics,
    after: SourceRun,
    m1: PipelineMetrics,
    r: SourceMove,
)
    requires
        source_reacts(before, SourceEvent::Looked(found), m0, after, m1, r),
        found.paused,
        !found.shutdown,
    ensures
        r.act !is Fetch,
        r.act !is End,
{
}

/// What the stage does when it has looked around, in this order: it ends where it is being shut
/// down; hands changed partitions to the source; waits for another source while it is paused;
/// waits while the body store is over its budget; ends where its partition is handed over; and
/// otherwise fetches.
pub proof fn law_what_the_stage_does_next(
    before: SourceRun,
    found: Surroundings,
    m0: PipelineMetrics,
    after: SourceRun,
    m1: PipelineMetrics,
    r: SourceMove,
)
    requires
        before.phase is Looking,
        source_reacts(before, SourceEvent::Looked(found), m0, after, m1, r),
    ensures
        m1 == m0,
        after.kind == before.kind,
        r.act is Fetch <==> !found.shutdown && !found.partitions_changed && !found.paused
            && !found.over_budget && !found.frozen,
        r.act is Reassign <==> !found.shutdown && found.partitions_changed,
        r.act is Pause <==> !found.shutdown && !found.partitions_changed && found.paused,
        (r.act is Throttle || r.act is Sleep) <==> !found.shutdown && !found.partitions_changed
            && !found.paused && found.over_budget,
        r.act is Throttle ==> !before.stage.throttled,
        r.act is Sleep ==> before.stage.throttled,
        r.act is Throttle || r.act is Sleep ==> after.stage.throttled,
        r.act is Fetch || r.act is End ==> !after.stage.throttled,
        r.act is End <==> found.shutdown || !found.partitions_changed && !found.paused
            && !found.over_budget && found.frozen,
        r.act is End ==> r.act == SourceAct::End(Ok(())),
        r.relieved <==> before.stage.throttled && !after.stage.throttled,
{
}

/// A batch counts as received and is handed on as it came. An empty one ends a source that is
/// pulled, unless it came during a pause; of any other source it is a lull.
pub proof fn law_what_becomes_of_a_batch(
    before: SourceRun,
    events: Vec<Event>,
    paused: bool,
    m0: PipelineMetrics,
    after: SourceRun,
    m1: PipelineMetrics,
    r: SourceMove,
)
    requires
        source_reacts(
            before,
            (SourceEvent::Fetched { batch: Ok(events), paused }),
            m0,
            after,
            m1,
            r,
        ),
    ensures
        m1 == (PipelineMetrics {
            events_received: m0.events_received.wrapping_add(events@.len() as u64),
            ..m0
        }),
        events@.len() > 0 ==> r.act == SourceAct::HandOn(events) && after.phase is HandingOn,
        events@.len() == 0 && before.kind == SourceKind::Pull && !paused ==> r.act
            == SourceAct::End(Ok(())),
        events@.len() == 0 && (before.kind == SourceKind::Push || before.kind == SourceKind::Poll
            || paused) ==> (r.act is Wait || r.act is Look) && after.phase is Looking,
        after.stage == before.stage,
{
}

/// A source that fails ends the stage with its own error; one that has been told its partitions is
/// looked after as before.
pub proof fn law_a_source_ends_with_its_error(
    before: SourceRun,
    event: SourceEvent,
    m0: PipelineMetrics,
    after: SourceRun,
    m1: PipelineMetrics,
    r: SourceMove,
)
    requires
        source_reacts(before, event, m0, after, m1, r),
    ensures
        event matches SourceEvent::Reassigned(Err(e)) ==> r.act == SourceAct::End(Err(e)),
        event matches SourceEvent::Fetched { batch: Err(e), .. } ==> r.act == SourceAct::End(
            Err(e),
        ),
        event matches SourceEvent::Reassigned(Ok(_)) ==> r.act is Look && after.phase is Looking
            && after.stage == before.stage,
        event is HandedOn ==> r.act is Look && after.phase is Looking && after.stage
            == before.stage,
        !(event is Fetched) ==> m1 == m0,
{
}

/// What a stage waits for next is the answer to what it asks for. Looking around changes nothing
/// but whether it is throttled, and that only where partitions and pause let it get so far.
pub proof fn law_a_source_stage_waits_for_the_answer(
    before: SourceRun,
    event: SourceEvent,
    m0: PipelineMetrics,
    after: SourceRun,
    m1: PipelineMetrics,
    r: SourceMove,
)
    requires
        before.expects(event),
        source_reacts(before, event, m0, after, m1, r),
    ensures
        after.kind == before.kind,
        r.act is Reassign ==> after.phase is Reassigning,
        r.act is Fetch ==> after.phase is Fetching,
        r.act is HandOn ==> after.phase is HandingOn,
        r.act is End ==> after.phase is Ended,
        r.act is Look || r.act is Wait || r.act is Throttle || r.act is Sleep || r.act is Pause
            ==> after.phase is Looking,
        !(event is Looked) ==> after.stage == before.stage && !r.relieved,
        event matches SourceEvent::Looked(found) ==> {
            &&& !found.shutdown && (found.partitions_changed || found.paused) ==> after.stage
                == before.stage && !r.relieved
            &&& found.shutdown || !found.partitions_changed && !found.paused
                ==> after.stage.throttled == (found.over_budget && !found.shutdown)
        },
        event matches SourceEvent::Fetched { batch: Ok(events), paused } ==> {
            &&& r.act is Look <==> events@.len() == 0 && paused
            &&& r.act is Wait <==> events@.len() == 0 && !paused && before.kind
                != SourceKind::Pull
        },
{
}

} // verus!
