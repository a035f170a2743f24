//! The processor stage: upgrades of the running processor, canary routing, drain and swap.
use vstd::prelude::*;

use crate::types::{Event, Output};

verus! {

/// An upgrade that the processor stage carries out between two batches.
pub enum UpgradeAction<P> {
    /// Install a green processor beside the active one. It is given the same events, and its
    /// outputs are discarded.
    StartBlueGreen(P),
    /// Make the green processor the active one.
    CutoverBlueGreen,
    /// Install a canary processor for a percentage of the events.
    StartCanary(P, u8),
    /// Change that percentage.
    SetCanaryPct(u8),
    /// Make the canary processor the active one.
    CompleteCanary,
    /// Drop green and canary.
    Rollback,
}

/// The processors of a running pipeline.
pub struct ProcessorStage<P> {
    pub current: P,
    pub green: Option<P>,
    pub canary: Option<P>,
    /// The percentage of events that go to the canary; zero while there is none.
    pub canary_pct: u8,
}

/// A batch, routed.
pub struct Routed {
    /// What the active processor is given.
    pub active: Vec<Event>,
    /// What the green processor is given, whose outputs are discarded.
    pub shadow: Option<Vec<Event>>,
    /// What the canary is given, where the batch is split.
    pub canary: Option<Vec<Event>>,
}

/// Whether some events are copies of others, one for one.
pub open spec fn copies(a: Seq<Event>, b: Seq<Event>) -> bool {
    &&& a.len() == b.len()
    &&& forall|i: int| 0 <= i < b.len() ==> (#[trigger] a[i]).same_as(b[i])
}

/// Whether an event goes to the canary at a percentage. The id alone decides.
pub open spec fn goes_to_canary(e: Event, pct: u8) -> bool {
    e.id % 100 < pct
}

/// The events of a batch that go to the canary, in order.
pub open spec fn canary_share(events: Seq<Event>, pct: u8) -> Seq<Event> {
    events.filter(|e: Event| goes_to_canary(e, pct))
}

/// The events of a batch that stay with the active processor, in order.
pub open spec fn baseline_share(events: Seq<Event>, pct: u8) -> Seq<Event> {
    events.filter(|e: Event| !goes_to_canary(e, pct))
}

impl<P> ProcessorStage<P> {
    /// A stage with one processor.
    pub fn new(processor: P) -> (r: Self)
        ensures
            r == (ProcessorStage { current: processor, green: None, canary: None, canary_pct: 0 }),
    {
        ProcessorStage { current: processor, green: None, canary: None, canary_pct: 0 }
    }

    /// The stage after an upgrade.
    pub open spec fn upgraded(self, action: UpgradeAction<P>) -> Self {
        match action {
            UpgradeAction::StartBlueGreen(green) => ProcessorStage { green: Some(green), ..self },
            UpgradeAction::CutoverBlueGreen => match self.green {
                Some(green) => ProcessorStage { current: green, green: None, ..self },
                None => self,
            },
            UpgradeAction::StartCanary(canary, pct) => ProcessorStage {
                canary: Some(canary),
                canary_pct: pct,
                ..self
            },
            UpgradeAction::SetCanaryPct(pct) => ProcessorStage { canary_pct: pct, ..self },
            UpgradeAction::CompleteCanary => match self.canary {
                Some(canary) => ProcessorStage {
                    current: canary,
                    canary: None,
                    canary_pct: 0,
                    ..self
                },
                None => ProcessorStage { canary_pct: 0, ..self },
            },
            UpgradeAction::Rollback => ProcessorStage {
                green: None,
                canary: None,
                canary_pct: 0,
                ..self
            },
        }
    }

    /// Whether an upgrade replaces the active processor.
    pub open spec fn replaces(self, action: UpgradeAction<P>) -> bool {
        match action {
            UpgradeAction::CutoverBlueGreen => self.green is Some,
            UpgradeAction::CompleteCanary => self.canary is Some,
            _ => false,
        }
    }

    /// Carries out an upgrade. Returns the processor that was active where another one took its
    /// place, so that its state can be carried over.
    pub fn apply(&mut self, action: UpgradeAction<P>) -> (retired: Option<P>)
        ensures
            *final(self) == old(self).upgraded(action),
            retired == (if old(self).replaces(action) {
                Some(old(self).current)
            } else {
                None
            }),
    {
        match action {
            UpgradeAction::StartBlueGreen(green) => {
                self.green = Some(green);
                None
            },
            UpgradeAction::CutoverBlueGreen => {
                match self.green.take() {
                    Some(green) => Some(self.replace_current(green)),
                    None => None,
                }
            },
            UpgradeAction::StartCanary(canary, pct) => {
                self.canary = Some(canary);
                self.canary_pct = pct;
                None
            },
            UpgradeAction::SetCanaryPct(pct) => {
                self.canary_pct = pct;
                None
            },
            UpgradeAction::CompleteCanary => {
                self.canary_pct = 0;
                match self.canary.take() {
                    Some(canary) => Some(self.replace_current(canary)),
                    None => None,
                }
            },
            UpgradeAction::Rollback => {
                self.green = None;
                self.canary = None;
                self.canary_pct = 0;
                None
            },
        }
    }

    /// Puts another processor in the place of the active one, which is returned.
    pub fn replace_current(&mut self, processor: P) -> (retired: P)
        ensures
            retired == old(self).current,
            *final(self) == (ProcessorStage { current: processor, ..*old(self) }),
    {
        let mut slot = processor;
        std::mem::swap(&mut slot, &mut self.current);
        slot
    }

    /// Whether a batch is routed: split where a canary is installed and its percentage is above
    /// zero, with copies for a green processor of what the active one is given.
    pub open spec fn routes(&self, events: Vec<Event>, r: Routed) -> bool {
        &&& match r.canary {
            Some(canary) => {
                &&& self.canary_pct > 0
                &&& self.canary is Some
                &&& canary@ == canary_share(events@, self.canary_pct)
                &&& r.active@ == baseline_share(events@, self.canary_pct)
            },
            None => (self.canary_pct == 0 || self.canary is None) && r.active == events,
        }
        &&& match r.shadow {
            Some(shadow) => self.green is Some && copies(shadow@, r.active@),
            None => self.green is None,
        }
    }

    /// Routes a batch: split where a canary is installed and its percentage is above zero. A
    /// green processor is given what the active one is given.
    pub fn route(&self, events: Vec<Event>) -> (r: Routed)
        ensures
            self.routes(events, r),
    {
        let (active, canary) = if self.canary_pct > 0 && self.canary.is_some() {
            let (baseline, canary) = split_events(events, self.canary_pct);
            (baseline, Some(canary))
        } else {
            (events, None)
        };
        let shadow = if self.green.is_some() {
            Some(copy_events(&active))
        } else {
            None
        };
        Routed { active, shadow, canary }
    }
}

fn copy_events(events: &Vec<Event>) -> (r: Vec<Event>)
    ensures
        copies(r@, events@),
{
    let mut out: Vec<Event> = Vec::new();
    let mut i: usize = 0;
    while i < events.len()
        invariant
            i <= events@.len(),
            out@.len() == i,
            forall|j: int| 0 <= j < i ==> (#[trigger] out@[j]).same_as(events@[j]),
        decreases events@.len() - i,
    {
        out.push(events[i].duplicate());
        i += 1;
    }
    out
}

fn split_events(events: Vec<Event>, pct: u8) -> (r: (Vec<Event>, Vec<Event>))
    ensures
        r.0@ == baseline_share(events@, pct),
        r.1@ == canary_share(events@, pct),
{
    let ghost all = events@;
    let ghost stays = |e: Event| !goes_to_canary(e, pct);
    let ghost goes = |e: Event| goes_to_canary(e, pct);
    let mut baseline: Vec<Event> = Vec::new();
    let mut canary: Vec<Event> = Vec::new();
    proof {
        reveal(Seq::filter);
        assert(all.take(0).filter(stays) =~= Seq::<Event>::empty());
        assert(all.take(0).filter(goes) =~= Seq::<Event>::empty());
    }
    for e in it: events.into_iter()
        invariant
            it.seq() == all,
            stays == (|e: Event| !goes_to_canary(e, pct)),
            goes == (|e: Event| goes_to_canary(e, pct)),
            baseline@ == all.take(it.index() as int).filter(stays),
            canary@ == all.take(it.index() as int).filter(goes),
    {
        proof {
            reveal(Seq::filter);
            let k = it.index() as int;
            assert(all.take(k + 1).drop_last() =~= all.take(k));
            assert(all.take(k + 1).last() == e);
        }
        let bucket: u128 = e.id % 100;
        if bucket < pct as u128 {
            canary.push(e);
        } else {
            baseline.push(e);
        }
    }
    proof {
        assert(all.take(all.len() as int) =~= all);
    }
    (baseline, canary)
}

/// The outputs of a split batch: those of the active processor, then those of the canary.
pub fn merge_outputs(baseline: Vec<Output>, canary: Vec<Output>) -> (r: Vec<Output>)
    ensures
        r@ == baseline@ + canary@,
{
    let mut out = baseline;
    let mut rest = canary;
    out.append(&mut rest);
    out
}

/// What the stage does when no batch is waiting.
#[derive(Debug, Clone, Copy, PartialEq, Eq, Structural)]
pub enum EmptyStep {
    /// The source is done: end.
    Stop,
    /// The pipeline is paused and both rings are empty: say so, then wait for a swap.
    Drained,
    /// Look again later.
    Yield,
}

/// Decides what to do when no batch is waiting. The sink's ring is empty when every slot is free.
pub fn on_empty(closed: bool, paused: bool, sink_slots: usize, sink_capacity: usize) -> (r:
    EmptyStep)
    ensures
        r == (if closed {
            EmptyStep::Stop
        } else if paused && sink_slots == sink_capacity {
            EmptyStep::Drained
        } else {
            EmptyStep::Yield
        }),
{
    if closed {
        EmptyStep::Stop
    } else if paused && sink_slots == sink_capacity {
        EmptyStep::Drained
    } else {
        EmptyStep::Yield
    }
}

/// What a drained stage does next.
pub enum DrainedStep<P> {
    /// The pause is over: go on.
    Resume,
    /// Another processor is active; the one that was is returned. Report the swap and go on.
    Swapped(P),
    /// Look again later.
    Wait,
}

impl<P> ProcessorStage<P> {
    /// Decides what a drained stage does: it goes on once the pause is over, and otherwise takes
    /// a replacement that has been placed for it.
    pub fn while_drained(&mut self, paused: bool, placed: Option<P>) -> (r: DrainedStep<P>)
        ensures
            !paused ==> r is Resume && *final(self) == *old(self),
            paused && placed is None ==> r is Wait && *final(self) == *old(self),
            paused && placed is Some ==> r == DrainedStep::Swapped(old(self).current)
                && *final(self) == (ProcessorStage { current: placed->0, ..*old(self) }),
    {
        if !paused {
            return DrainedStep::Resume;
        }
        match placed {
            Some(processor) => DrainedStep::Swapped(self.replace_current(processor)),
            None => DrainedStep::Wait,
        }
    }
}

/// What a processor that takes the place of another is given of its state: what the other one
/// handed out, but for a state that is empty or could not be read. The new processor then starts
/// afresh.
pub fn transfer_processor_state<E>(snapshot: Result<Vec<(Vec<u8>, Vec<u8>)>, E>) -> (r: Option<
    Vec<(Vec<u8>, Vec<u8>)>,
>)
    ensures
        r == (match snapshot {
            Ok(entries) => if entries@.len() > 0 {
                Some(entries)
            } else {
                None
            },
            Err(_) => None,
        }),
{
    match snapshot {
        Ok(entries) => if entries.len() > 0 {
            Some(entries)
        } else {
            None
        },
        Err(_) => None,
    }
}

/// Splitting a batch loses no event and duplicates none.
pub proof fn law_split_keeps_every_event(events: Seq<Event>, pct: u8)
    ensures
        baseline_share(events, pct).to_multiset().add(canary_share(events, pct).to_multiset())
            == events.to_multiset(),
        baseline_share(events, pct).len() + canary_share(events, pct).len() == events.len(),
    decreases events.len(),
{
    broadcast use vstd::seq_lib::group_to_multiset_ensures;

    reveal(Seq::filter);
    let b = baseline_share(events, pct);
    let c = canary_share(events, pct);
    if events.len() == 0 {
        assert(b.to_multiset().add(c.to_multiset()) =~= events.to_multiset());
    } else {
        let rest = events.drop_last();
        let e = events.last();
        law_split_keeps_every_event(rest, pct);
        assert(events =~= rest.push(e));
        assert(events.to_multiset() =~= rest.to_multiset().insert(e));
        if goes_to_canary(e, pct) {
            assert(c =~= canary_share(rest, pct).push(e));
            assert(b =~= baseline_share(rest, pct));
        } else {
            assert(b =~= baseline_share(rest, pct).push(e));
            assert(c =~= canary_share(rest, pct));
        }
        assert(b.to_multiset().add(c.to_multiset()) =~= events.to_multiset());
    }
}

/// Raising the percentage never takes an event away from the canary; at zero it gets none, from
/// a hundred on it gets all.
pub proof fn law_canary_share_grows(e: Event, low: u8, high: u8)
    requires
        low <= high,
    ensures
        goes_to_canary(e, low) ==> goes_to_canary(e, high),
        !goes_to_canary(e, 0),
        high >= 100 ==> goes_to_canary(e, high),
{
}

/// Rolling an upgrade back leaves the processor that was active when it began in place, and
/// nothing of the upgrade behind, whatever the percentage was changed to meanwhile.
pub proof fn law_rollback_undoes_start<P>(stage: ProcessorStage<P>, p: P, pct: u8, later: u8)
    requires
        stage.green is None,
        stage.canary is None,
        stage.canary_pct == 0,
    ensures
        stage.upgraded(UpgradeAction::StartBlueGreen(p)).upgraded(UpgradeAction::Rollback) == stage,
        stage.upgraded(UpgradeAction::StartCanary(p, pct)).upgraded(
            UpgradeAction::SetCanaryPct(later),
        ).upgraded(UpgradeAction::Rollback) == stage,
{
}

/// Completing an upgrade makes the new processor the active one and the only one.
pub proof fn law_completion_installs<P>(stage: ProcessorStage<P>, p: P, pct: u8)
    requires
        stage.green is None,
        stage.canary is None,
        stage.canary_pct == 0,
    ensures
        stage.upgraded(UpgradeAction::StartBlueGreen(p)).upgraded(UpgradeAction::CutoverBlueGreen)
            == (ProcessorStage { current: p, ..stage }),
        stage.upgraded(UpgradeAction::StartCanary(p, pct)).upgraded(UpgradeAction::CompleteCanary)
            == (ProcessorStage { current: p, ..stage }),
{
}

/// After the percentage of a canary is set, the stage has that percentage, and nothing else of it
/// has changed.
pub proof fn law_the_percentage_is_the_one_last_set<P>(stage: ProcessorStage<P>, pct: u8)
    ensures
        ({
            let after = stage.upgraded(UpgradeAction::SetCanaryPct(pct));
            &&& after.canary_pct == pct
            &&& after.current == stage.current
            &&& after.green == stage.green
            &&& after.canary == stage.canary
        }),
{
}

/// With a canary installed, and at whatever percentage was last set, an event is given to the
/// canary exactly where its id modulo a hundred is below the percentage, and otherwise to the
/// active processor, as often as it is in the batch.
pub proof fn law_a_canary_gets_its_percentage<P>(
    stage: ProcessorStage<P>,
    pct: u8,
    events: Vec<Event>,
    r: Routed,
    e: Event,
)
    requires
        stage.canary is Some,
        stage.upgraded(UpgradeAction::SetCanaryPct(pct)).routes(events, r),
    ensures
        r.canary is Some <==> pct > 0,
        r.canary is Some ==> {
            &&& r.canary->0@.to_multiset().count(e) == (if e.id % 100 < pct {
                events@.to_multiset().count(e)
            } else {
                0
            })
            &&& r.active@.to_multiset().count(e) == (if e.id % 100 < pct {
                0
            } else {
                events@.to_multiset().count(e)
            })
        },
        r.canary is None ==> r.active@ == events@,
{
    lemma_shares(events@, pct, e);
}

proof fn lemma_shares(events: Seq<Event>, pct: u8, e: Event)
    ensures
        canary_share(events, pct).to_multiset().count(e) == (if e.id % 100 < pct {
            events.to_multiset().count(e)
        } else {
            0
        }),
        baseline_share(events, pct).to_multiset().count(e) == (if e.id % 100 < pct {
            0
        } else {
            events.to_multiset().count(e)
        }),
    decreases events.len(),
{
    broadcast use vstd::seq_lib::group_to_multiset_ensures;

    reveal(Seq::filter);
    if events.len() > 0 {
        let rest = events.drop_last();
        let last = events.last();
        lemma_shares(rest, pct, e);
        assert(events =~= rest.push(last));
        if last.id % 100 < pct {
            assert(canary_share(events, pct) =~= canary_share(rest, pct).push(last));
            assert(baseline_share(events, pct) =~= baseline_share(rest, pct));
        } else {
            assert(baseline_share(events, pct) =~= baseline_share(rest, pct).push(last));
            assert(canary_share(events, pct) =~= canary_share(rest, pct));
        }
    } else {
        assert(canary_share(events, pct) =~= events);
        assert(baseline_share(events, pct) =~= events);
    }
}

/// Both shares of a batch keep its order: the shares of two parts, one after the other, are those
/// of the whole.
pub proof fn law_shares_keep_the_order(a: Seq<Event>, b: Seq<Event>, pct: u8)
    ensures
        canary_share(a + b, pct) == canary_share(a, pct) + canary_share(b, pct),
        baseline_share(a + b, pct) == baseline_share(a, pct) + baseline_share(b, pct),
{
    Seq::filter_distributes_over_add(a, b, |e: Event| goes_to_canary(e, pct));
    Seq::filter_distributes_over_add(a, b, |e: Event| !goes_to_canary(e, pct));
}

/// A green processor is given a copy of each event that the active one is given, in order, and
/// without one there are no copies. Without a canary, or at zero, the active processor is given
/// the batch as it is.
pub proof fn law_a_batch_is_routed_whole<P>(
    stage: ProcessorStage<P>,
    events: Vec<Event>,
    r: Routed,
)
    requires
        stage.routes(events, r),
    ensures
        r.shadow is Some <==> stage.green is Some,
        r.shadow is Some ==> {
            &&& r.shadow->0@.len() == r.active@.len()
            &&& forall|i: int|
                0 <= i < r.active@.len() ==> {
                    let c = #[trigger] r.shadow->0@[i];
                    &&& c.id == r.active@[i].id
                    &&& c.timestamp == r.active@[i].timestamp
                    &&& c.source@ == r.active@[i].source@
                    &&& c.partition == r.active@[i].partition
                    &&& c.payload@ == r.active@[i].payload@
                    &&& c.source_offset == r.active@[i].source_offset
                    &&& c.l2_seq == r.active@[i].l2_seq
                    &&& c.metadata@.len() == r.active@[i].metadata@.len()
                }
        },
        r.canary is Some <==> stage.canary is Some && stage.canary_pct > 0,
        r.canary is None ==> r.active@ == events@,
        r.canary matches Some(canary) ==> canary@ == canary_share(events@, stage.canary_pct)
            && r.active@ == baseline_share(events@, stage.canary_pct),
        r.shadow matches Some(shadow) ==> forall|i: int|
            0 <= i < r.active@.len() ==> (#[trigger] shadow@[i]).same_as(r.active@[i]),
{
}

/// What each upgrade does to each processor: starting one installs it beside the active one;
/// completing one puts it in the place of the active one, which retires; rolling back drops what
/// was installed; nothing else touches the active processor.
pub proof fn law_upgrades_do_what_they_say<P>(stage: ProcessorStage<P>, p: P, pct: u8)
    ensures
        ({
            let s = stage.upgraded(UpgradeAction::StartBlueGreen(p));
            &&& s.green == Some(p) && s.current == stage.current
            &&& s.canary == stage.canary && s.canary_pct == stage.canary_pct
            &&& !stage.replaces(UpgradeAction::StartBlueGreen(p))
        }),
        ({
            let s = stage.upgraded(UpgradeAction::StartCanary(p, pct));
            &&& s.canary == Some(p) && s.canary_pct == pct
            &&& s.current == stage.current && s.green == stage.green
            &&& !stage.replaces(UpgradeAction::StartCanary(p, pct))
        }),
        ({
            let s = stage.upgraded(UpgradeAction::CutoverBlueGreen);
            &&& s.green is None
            &&& s.current == (if stage.green is Some {
                stage.green->0
            } else {
                stage.current
            })
            &&& s.canary == stage.canary && s.canary_pct == stage.canary_pct
            &&& stage.replaces(UpgradeAction::CutoverBlueGreen) == (stage.green is Some)
        }),
        ({
            let s = stage.upgraded(UpgradeAction::CompleteCanary);
            &&& s.canary is None && s.canary_pct == 0
            &&& s.current == (if stage.canary is Some {
                stage.canary->0
            } else {
                stage.current
            })
            &&& s.green == stage.green
            &&& stage.replaces(UpgradeAction::CompleteCanary) == (stage.canary is Some)
        }),
        ({
            let s = stage.upgraded(UpgradeAction::Rollback);
            &&& s.current == stage.current
            &&& s.green is None && s.canary is None && s.canary_pct == 0
            &&& !stage.replaces(UpgradeAction::Rollback)
        }),
        !stage.replaces(UpgradeAction::SetCanaryPct(pct)),
{
}

/// An event goes to the canary exactly where its id modulo a hundred is below the percentage, as
/// often as it is in the batch; all others stay.
pub proof fn law_each_event_goes_one_way(events: Seq<Event>, pct: u8, e: Event)
    ensures
        goes_to_canary(e, pct) <==> e.id % 100 < pct,
        canary_share(events, pct).to_multiset().count(e) == (if e.id % 100 < pct {
            events.to_multiset().count(e)
        } else {
            0
        }),
        baseline_share(events, pct).to_multiset().count(e) == (if e.id % 100 < pct {
            0
        } else {
            events.to_multiset().count(e)
        }),
{
    lemma_shares(events, pct, e);
}

} // verus!
