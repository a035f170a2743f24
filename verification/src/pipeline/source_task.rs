//! The source stage: when to fetch, when to wait, when to stop.
use vstd::prelude::*;

use crate::error::AeonError;
use crate::pipeline::metrics::PipelineMetrics;
use crate::text::join2;
use crate::types::SourceKind;

verus! {

/// What a source stage does at the start of a turn.
#[derive(Debug, Clone, Copy, PartialEq, Eq, Structural)]
pub enum SourceStep {
    /// End.
    Stop,
    /// The body store is over its budget: raise the pressure gauge, then sleep.
    Throttle,
    /// The body store is still over its budget: sleep.
    Sleep,
    /// Look again later.
    Yield,
    /// Ask the source for a batch.
    Fetch,
}

/// What a source stage does, and whether the pressure gauges are lowered first.
#[derive(Debug, Clone, Copy, PartialEq, Eq, Structural)]
pub struct SourceTurn {
    pub relieved: bool,
    pub step: SourceStep,
}

/// A source stage that heeds a byte budget and a write gate.
pub struct SourceStage {
    /// Whether the stage waits for the body store to fall below its budget.
    pub throttled: bool,
}

impl SourceStage {
    pub fn new() -> (r: Self)
        ensures
            !r.throttled,
    {
        SourceStage { throttled: false }
    }

    /// The stage after the start of a turn, and what it does.
    pub open spec fn next(self, shutdown: bool, over_budget: bool, frozen: bool) -> (
        SourceStage,
        SourceTurn,
    ) {
        let waits = over_budget && !shutdown;
        (
            SourceStage { throttled: waits },
            SourceTurn {
                relieved: self.throttled && !waits,
                step: (if shutdown {
                    SourceStep::Stop
                } else if waits {
                    if self.throttled {
                        SourceStep::Sleep
                    } else {
                        SourceStep::Throttle
                    }
                } else if frozen {
                    SourceStep::Stop
                } else {
                    SourceStep::Fetch
                }),
            },
        )
    }

    /// Decides what to do at the start of a turn. A stage stops on shutdown, and starts to wait
    /// when the body store is over its budget. A stage that is waiting goes on when the budget is
    /// met. A stage that goes on stops if its partition is frozen, and fetches otherwise.
    pub fn turn(&mut self, shutdown: bool, over_budget: bool, frozen: bool) -> (r: SourceTurn)
        ensures
            (*final(self), r) == old(self).next(shutdown, over_budget, frozen),
    {
        if over_budget && !shutdown {
            let step = if self.throttled {
                SourceStep::Sleep
            } else {
                SourceStep::Throttle
            };
            self.throttled = true;
            return SourceTurn { relieved: false, step };
        }
        let relieved = self.throttled;
        self.throttled = false;
        SourceTurn {
            relieved,
            step: if shutdown || frozen {
                SourceStep::Stop
            } else {
                SourceStep::Fetch
            },
        }
    }
}

impl SourceStage {
    /// Decides what the source stage of a pipeline that can be paused does at the start of a
    /// turn. A paused stage fetches nothing and looks for a source to swap in, also while it
    /// waits for the body store; otherwise the stage does what any other does.
    pub fn managed_turn(
        &mut self,
        shutdown: bool,
        paused: bool,
        over_budget: bool,
        frozen: bool,
    ) -> (r: SourceTurn)
        ensures
            (*final(self), r) == (if paused && !shutdown {
                (*old(self), SourceTurn { relieved: false, step: SourceStep::Yield })
            } else {
                old(self).next(shutdown, over_budget, frozen)
            }),
    {
        if paused && !shutdown {
            return SourceTurn { relieved: false, step: SourceStep::Yield };
        }
        self.turn(shutdown, over_budget, frozen)
    }
}

/// What a source stage does with a batch.
#[derive(Debug, Clone, Copy, PartialEq, Eq, Structural)]
pub enum FetchStep {
    /// The source has come to its end.
    Stop,
    /// A lull: look again later.
    Yield,
    /// The pipeline was paused meanwhile: take the next turn at once.
    Again,
    /// Hand the batch on.
    Forward,
}

/// What to do with a batch of `count` events from a source of some kind. An empty batch ends a
/// pull source, unless the pipeline has been paused, and is a lull of any other.
pub open spec fn fetch_step(count: nat, kind: SourceKind, paused: bool) -> FetchStep {
    if count > 0 {
        FetchStep::Forward
    } else if paused {
        FetchStep::Again
    } else if kind == SourceKind::Pull {
        FetchStep::Stop
    } else {
        FetchStep::Yield
    }
}

/// Decides what to do with a batch and counts its events as received. A pipeline that cannot be
/// paused says so by `paused == false`.
pub fn on_fetched(count: usize, kind: SourceKind, paused: bool, metrics: &mut PipelineMetrics) -> (r:
    FetchStep)
    ensures
        r == fetch_step(count as nat, kind, paused),
        *final(metrics) == (PipelineMetrics {
            events_received: old(metrics).events_received.wrapping_add(count as u64),
            ..*old(metrics)
        }),
{
    metrics.events_received = metrics.events_received.wrapping_add(count as u64);
    if count > 0 {
        return FetchStep::Forward;
    }
    if paused {
        return FetchStep::Again;
    }
    match kind {
        SourceKind::Pull => FetchStep::Stop,
        _ => FetchStep::Yield,
    }
}

/// Counts a batch as processed.
pub fn batch_processed(count: usize, metrics: &mut PipelineMetrics)
    ensures
        *final(metrics) == (PipelineMetrics {
            events_processed: old(metrics).events_processed.wrapping_add(count as u64),
            ..*old(metrics)
        }),
{
    metrics.events_processed = metrics.events_processed.wrapping_add(count as u64);
}

/// Counts outputs as sent.
pub fn outputs_delivered(count: usize, metrics: &mut PipelineMetrics)
    ensures
        *final(metrics) == (PipelineMetrics {
            outputs_sent: old(metrics).outputs_sent.wrapping_add(count as u64),
            ..*old(metrics)
        }),
{
    metrics.outputs_sent = metrics.outputs_sent.wrapping_add(count as u64);
}

/// The refusal of a source whose partitions the broker hands out, in a pipeline whose partitions
/// the cluster hands out.
pub open spec fn reassign_conflict() -> Seq<char> {
    "pipeline start: source uses ConsumerMode::Group (broker-coordinated partition ownership) but partition_reassign is attached — these are mutually exclusive. Either set ConsumerMode::Single on the source, or drop the Raft partition_reassign watcher."@
}

/// Refuses a pipeline in which both the broker and the cluster would hand out partitions.
pub fn reject_broker_coord_with_reassign(
    broker_coordinated: bool,
    has_partition_reassign: bool,
) -> (r: Result<(), AeonError>)
    ensures
        match r {
            Ok(_) => !(broker_coordinated && has_partition_reassign),
            Err(e) => broker_coordinated && has_partition_reassign && e is Config && e.text()
                == reassign_conflict(),
        },
{
    if has_partition_reassign && broker_coordinated {
        return Err(
            AeonError::config(
                "pipeline start: source uses ConsumerMode::Group (broker-coordinated partition ownership) but partition_reassign is attached — these are mutually exclusive. Either set ConsumerMode::Single on the source, or drop the Raft partition_reassign watcher.".to_owned(),
            ),
        );
    }
    Ok(())
}

/// How a stage's task came to its end.
pub enum TaskEnd {
    Finished,
    Failed(AeonError),
    Panicked(String),
}

/// The error that a task's end stands for, in a stage of this name.
pub open spec fn end_error(stage: Seq<char>, end: TaskEnd, e: AeonError) -> bool {
    match end {
        TaskEnd::Finished => false,
        TaskEnd::Failed(err) => e == err,
        TaskEnd::Panicked(text) => e is Processor && e.text() == stage + text@,
    }
}

fn end_result(stage: &str, end: TaskEnd) -> (r: Result<(), AeonError>)
    ensures
        r is Ok == (end is Finished),
        r is Err ==> end_error(stage@, end, r->Err_0),
{
    match end {
        TaskEnd::Finished => Ok(()),
        TaskEnd::Failed(e) => Err(e),
        TaskEnd::Panicked(text) => Err(AeonError::processor(join2(stage, text.as_str()))),
    }
}

/// The result of a pipeline whose three tasks have ended: the error of the source if it has one,
/// else the processor's, else the sink's.
pub fn join_stages(source: TaskEnd, processor: TaskEnd, sink: TaskEnd) -> (r: Result<
    (),
    AeonError,
>)
    ensures
        match r {
            Ok(_) => source is Finished && processor is Finished && sink is Finished,
            Err(e) => if source !is Finished {
                end_error("source task panicked: "@, source, e)
            } else if processor !is Finished {
                end_error("processor task panicked: "@, processor, e)
            } else {
                sink !is Finished && end_error("sink task panicked: "@, sink, e)
            },
        },
{
    if let Err(e) = end_result("source task panicked: ", source) {
        return Err(e);
    }
    if let Err(e) = end_result("processor task panicked: ", processor) {
        return Err(e);
    }
    end_result("sink task panicked: ", sink)
}

/// What a batch leads to depends on how many events it has first, on a pause next, and on the kind
/// of source last.
pub proof fn law_what_a_fetch_leads_to(count: nat, kind: SourceKind, paused: bool)
    ensures
        fetch_step(count, kind, paused) is Forward <==> count > 0,
        fetch_step(count, kind, paused) is Stop <==> count == 0 && !paused && kind
            == SourceKind::Pull,
        fetch_step(count, kind, paused) is Again <==> count == 0 && paused,
        fetch_step(count, kind, paused) is Yield <==> count == 0 && !paused && (kind
            == SourceKind::Push || kind == SourceKind::Poll),
{
}

/// The stage fetches exactly where nothing keeps it from it, and stays throttled exactly as long as
/// the body store is over its budget.
pub proof fn law_when_a_stage_fetches(
    stage: SourceStage,
    shutdown: bool,
    over_budget: bool,
    frozen: bool,
)
    ensures
        ({
            let (after, turn) = stage.next(shutdown, over_budget, frozen);
            &&& turn.step == SourceStep::Fetch <==> !shutdown && !over_budget && !frozen
            &&& turn.step == SourceStep::Stop <==> shutdown || !over_budget && frozen
            &&& turn.step == SourceStep::Throttle <==> !shutdown && over_budget
                && !stage.throttled
            &&& turn.step == SourceStep::Sleep <==> !shutdown && over_budget && stage.throttled
            &&& after.throttled <==> over_budget && !shutdown
            &&& turn.relieved <==> stage.throttled && !after.throttled
        }),
{
}

/// The error of a stage that ended badly is its own, or says that it panicked and with what.
pub proof fn law_an_end_names_its_error(stage: Seq<char>, end: TaskEnd, e: AeonError)
    requires
        end_error(stage, end, e),
    ensures
        end !is Finished,
        end matches TaskEnd::Failed(own) ==> e == own,
        end matches TaskEnd::Panicked(text) ==> e is Processor && e.text() == stage + text@,
{
}

} // verus!
