//! The control handle of a managed pipeline: pause, swaps and upgrades.
use vstd::prelude::*;

use crate::pipeline::processor_task::UpgradeAction;

verus! {

/// What a controller has asked of a running pipeline. Each request waits in a slot until the
/// stage it is meant for takes it.
pub struct PipelineControl<P, S, K> {
    pub paused: bool,
    pub new_processor: Option<P>,
    pub new_source: Option<S>,
    pub new_sink: Option<K>,
    pub upgrade_action: Option<UpgradeAction<P>>,
}

/// What takes the place of a stage's part.
pub enum Replacement<P, S, K> {
    Processor(P),
    Source(S),
    Sink(K),
}

/// A swap that has begun: what is to be placed once the pipeline is drained.
pub struct Swap<P, S, K> {
    pub waiting: Option<Replacement<P, S, K>>,
}

impl<P, S, K> PipelineControl<P, S, K> {
    /// The controls with a replacement in its slot.
    pub open spec fn placed(self, replacement: Replacement<P, S, K>) -> Self {
        match replacement {
            Replacement::Processor(p) => PipelineControl { new_processor: Some(p), ..self },
            Replacement::Source(s) => PipelineControl { new_source: Some(s), ..self },
            Replacement::Sink(k) => PipelineControl { new_sink: Some(k), ..self },
        }
    }

    /// The controls once the stage has taken a replacement from its slot.
    pub open spec fn taken(self, replacement: Replacement<P, S, K>) -> Self {
        match replacement {
            Replacement::Processor(_) => PipelineControl { new_processor: None, ..self },
            Replacement::Source(_) => PipelineControl { new_source: None, ..self },
            Replacement::Sink(_) => PipelineControl { new_sink: None, ..self },
        }
    }

    /// Begins to swap the processor: the pipeline is paused, so that it drains.
    pub fn drain_and_swap(&mut self, new_processor: P) -> (r: Swap<P, S, K>)
        ensures
            *final(self) == (PipelineControl { paused: true, ..*old(self) }),
            r.waiting == Some(Replacement::<P, S, K>::Processor(new_processor)),
    {
        self.pause();
        Swap { waiting: Some(Replacement::Processor(new_processor)) }
    }

    /// Begins to swap the source: the pipeline is paused, so that it drains.
    pub fn drain_and_swap_source(&mut self, new_source: S) -> (r: Swap<P, S, K>)
        ensures
            *final(self) == (PipelineControl { paused: true, ..*old(self) }),
            r.waiting == Some(Replacement::<P, S, K>::Source(new_source)),
    {
        self.pause();
        Swap { waiting: Some(Replacement::Source(new_source)) }
    }

    /// Begins to swap the sink: the pipeline is paused, so that it drains.
    pub fn drain_and_swap_sink(&mut self, new_sink: K) -> (r: Swap<P, S, K>)
        ensures
            *final(self) == (PipelineControl { paused: true, ..*old(self) }),
            r.waiting == Some(Replacement::<P, S, K>::Sink(new_sink)),
    {
        self.pause();
        Swap { waiting: Some(Replacement::Sink(new_sink)) }
    }

    /// Goes on with a swap once the pipeline is drained: the replacement is placed, once.
    pub fn drain_completed(&mut self, swap: &mut Swap<P, S, K>)
        ensures
            final(swap).waiting is None,
            *final(self) == (match old(swap).waiting {
                Some(replacement) => old(self).placed(replacement),
                None => *old(self),
            }),
    {
        match swap.waiting.take() {
            Some(Replacement::Processor(p)) => self.place_processor(p),
            Some(Replacement::Source(s)) => self.place_source(s),
            Some(Replacement::Sink(k)) => self.place_sink(k),
            None => {},
        }
    }

    /// A pipeline that runs with nothing asked of it.
    pub open spec fn idle() -> Self {
        PipelineControl {
            paused: false,
            new_processor: None,
            new_source: None,
            new_sink: None,
            upgrade_action: None,
        }
    }

    pub fn new() -> (r: Self)
        ensures
            r == Self::idle(),
    {
        PipelineControl {
            paused: false,
            new_processor: None,
            new_source: None,
            new_sink: None,
            upgrade_action: None,
        }
    }

    /// The first step of a swap: the source stops fetching and the rings drain.
    pub fn pause(&mut self)
        ensures
            *final(self) == (PipelineControl { paused: true, ..*old(self) }),
    {
        self.paused = true;
    }

    /// The last step of a swap.
    pub fn resume(&mut self)
        ensures
            *final(self) == (PipelineControl { paused: false, ..*old(self) }),
    {
        self.paused = false;
    }

    /// Places a processor for a drained pipeline.
    pub fn place_processor(&mut self, processor: P)
        ensures
            *final(self) == (PipelineControl { new_processor: Some(processor), ..*old(self) }),
    {
        self.new_processor = Some(processor);
    }

    /// Places a source for a drained pipeline.
    pub fn place_source(&mut self, source: S)
        ensures
            *final(self) == (PipelineControl { new_source: Some(source), ..*old(self) }),
    {
        self.new_source = Some(source);
    }

    /// Places a sink for a drained pipeline.
    pub fn place_sink(&mut self, sink: K)
        ensures
            *final(self) == (PipelineControl { new_sink: Some(sink), ..*old(self) }),
    {
        self.new_sink = Some(sink);
    }

    /// Takes the processor that was placed. A pipeline that is not paused leaves it.
    pub fn take_processor(&mut self) -> (r: Option<P>)
        ensures
            old(self).paused ==> r == old(self).new_processor && *final(self) == (PipelineControl {
                new_processor: None,
                ..*old(self)
            }),
            !old(self).paused ==> r is None && *final(self) == *old(self),
    {
        if self.paused {
            self.new_processor.take()
        } else {
            None
        }
    }

    /// Takes the source that was placed. A pipeline that is not paused leaves it.
    pub fn take_source(&mut self) -> (r: Option<S>)
        ensures
            old(self).paused ==> r == old(self).new_source && *final(self) == (PipelineControl {
                new_source: None,
                ..*old(self)
            }),
            !old(self).paused ==> r is None && *final(self) == *old(self),
    {
        if self.paused {
            self.new_source.take()
        } else {
            None
        }
    }

    /// Takes the sink that was placed. A pipeline that is not paused leaves it.
    pub fn take_sink(&mut self) -> (r: Option<K>)
        ensures
            old(self).paused ==> r == old(self).new_sink && *final(self) == (PipelineControl {
                new_sink: None,
                ..*old(self)
            }),
            !old(self).paused ==> r is None && *final(self) == *old(self),
    {
        if self.paused {
            self.new_sink.take()
        } else {
            None
        }
    }

    /// Asks for a green processor beside the active one.
    pub fn start_blue_green(&mut self, green: P)
        ensures
            *final(self) == (PipelineControl {
                upgrade_action: Some(UpgradeAction::StartBlueGreen(green)),
                ..*old(self)
            }),
    {
        self.upgrade_action = Some(UpgradeAction::StartBlueGreen(green));
    }

    /// Asks for the green processor to become the active one.
    pub fn cutover_blue_green(&mut self)
        ensures
            *final(self) == (PipelineControl {
                upgrade_action: Some(UpgradeAction::CutoverBlueGreen),
                ..*old(self)
            }),
    {
        self.upgrade_action = Some(UpgradeAction::CutoverBlueGreen);
    }

    /// Asks for a canary processor for a percentage of the events.
    pub fn start_canary(&mut self, canary: P, initial_pct: u8)
        ensures
            *final(self) == (PipelineControl {
                upgrade_action: Some(UpgradeAction::StartCanary(canary, initial_pct)),
                ..*old(self)
            }),
    {
        self.upgrade_action = Some(UpgradeAction::StartCanary(canary, initial_pct));
    }

    /// Asks for another percentage.
    pub fn set_canary_pct(&mut self, pct: u8)
        ensures
            *final(self) == (PipelineControl {
                upgrade_action: Some(UpgradeAction::SetCanaryPct(pct)),
                ..*old(self)
            }),
    {
        self.upgrade_action = Some(UpgradeAction::SetCanaryPct(pct));
    }

    /// Asks for the canary processor to become the active one.
    pub fn complete_canary(&mut self)
        ensures
            *final(self) == (PipelineControl {
                upgrade_action: Some(UpgradeAction::CompleteCanary),
                ..*old(self)
            }),
    {
        self.upgrade_action = Some(UpgradeAction::CompleteCanary);
    }

    /// Asks for green and canary to be dropped.
    pub fn rollback_upgrade(&mut self)
        ensures
            *final(self) == (PipelineControl {
                upgrade_action: Some(UpgradeAction::Rollback),
                ..*old(self)
            }),
    {
        self.upgrade_action = Some(UpgradeAction::Rollback);
    }

    /// Takes the upgrade that was asked for. Each is taken once.
    pub fn take_upgrade(&mut self) -> (r: Option<UpgradeAction<P>>)
        ensures
            r == old(self).upgrade_action,
            *final(self) == (PipelineControl { upgrade_action: None, ..*old(self) }),
    {
        self.upgrade_action.take()
    }
}

/// A swap that is carried through, from the pause to the resumption, leaves the controls as they
/// were: nothing stays in a slot and the pipeline goes on.
pub proof fn law_swap_leaves_no_trace<P, S, K>(
    control: PipelineControl<P, S, K>,
    replacement: Replacement<P, S, K>,
)
    requires
        !control.paused,
        control == control.taken(replacement),
    ensures
        ({
            let paused = PipelineControl { paused: true, ..control };
            let swapped = paused.placed(replacement).taken(replacement);
            control == PipelineControl { paused: false, ..swapped }
        }),
{
}

/// A replacement goes to the slot of its own kind, and to no other; taking it empties that slot
/// only.
pub proof fn law_replacements_go_to_their_slots<P, S, K>(
    control: PipelineControl<P, S, K>,
    p: P,
    s: S,
    k: K,
)
    ensures
        control.placed(Replacement::Processor(p)) == (PipelineControl {
            new_processor: Some(p),
            ..control
        }),
        control.placed(Replacement::Source(s)) == (PipelineControl {
            new_source: Some(s),
            ..control
        }),
        control.placed(Replacement::Sink(k)) == (PipelineControl { new_sink: Some(k), ..control }),
        control.taken(Replacement::Processor(p)).new_processor is None,
        control.taken(Replacement::Source(s)).new_source is None,
        control.taken(Replacement::Sink(k)).new_sink is None,
        control.taken(Replacement::Processor(p)).new_source == control.new_source,
        control.taken(Replacement::Source(s)).new_sink == control.new_sink,
        control.taken(Replacement::Sink(k)).new_processor == control.new_processor,
        !PipelineControl::<P, S, K>::idle().paused,
        PipelineControl::<P, S, K>::idle().new_processor is None,
        PipelineControl::<P, S, K>::idle().new_source is None,
        PipelineControl::<P, S, K>::idle().new_sink is None,
        PipelineControl::<P, S, K>::idle().upgrade_action is None,
{
}

} // verus!
