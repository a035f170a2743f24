//! The lifecycle of pipelines: create, start, stop, upgrade, delete, and the history of each.
use vstd::prelude::*;

use crate::definition::{
    BlueGreenActive, BlueGreenState, CanaryState, CanaryThresholds, PipelineAction,
    PipelineDefinition, PipelineHistoryEntry, PipelineState, ProcessorRef, RegistryCommand,
    RegistryResponse, SinkConfig, SourceConfig, UpgradeInfo,
};
use crate::error::AeonError;
use crate::name_map::NameMap;
use crate::text::{decimal, join2, join3, join4, same_text, u64_text};

verus! {

/// All pipelines that are declared, and what happened to them.
pub struct PipelineManager {
    pipelines: NameMap<PipelineDefinition>,
    history: NameMap<Vec<PipelineHistoryEntry>>,
}

/// The histories of all pipelines.
pub type Histories = Map<Seq<char>, Seq<PipelineHistoryEntry>>;

/// The pipelines of a manager by name.
pub type Definitions = Map<Seq<char>, PipelineDefinition>;

/// The history of one pipeline.
pub open spec fn history_of(h: Histories, name: Seq<char>) -> Seq<PipelineHistoryEntry> {
    if h.contains_key(name) {
        h[name]
    } else {
        seq![]
    }
}

/// What an entry of a history says.
pub ghost struct Entry {
    pub timestamp: i64,
    pub action: PipelineAction,
    pub actor: Seq<char>,
    pub from: PipelineState,
    pub to: PipelineState,
    pub details: Option<Seq<char>>,
}

/// Whether an entry of a history says this.
pub open spec fn says(e: PipelineHistoryEntry, x: Entry) -> bool {
    &&& e.timestamp == x.timestamp
    &&& e.action == x.action
    &&& e.actor@ == x.actor
    &&& e.from_state == x.from
    &&& e.to_state == x.to
    &&& match e.details {
        Some(d) => x.details == Some(d@),
        None => x.details is None,
    }
}

/// Whether the histories differ by one entry at the end of a pipeline's history.
pub open spec fn recorded(before: Histories, after: Histories, name: Seq<char>, x: Entry) -> bool {
    &&& after.contains_key(name)
    &&& after[name].len() > 0
    &&& says(after[name].last(), x)
    &&& after == before.insert(name, history_of(before, name).push(after[name].last()))
}

/// A pipeline in another state.
pub open spec fn in_state(d: PipelineDefinition, state: PipelineState, now: i64)
    -> PipelineDefinition {
    PipelineDefinition { state, updated_at: now, ..d }
}

/// A pipeline that has been moved to another processor in one step.
pub open spec fn upgraded(d: PipelineDefinition, processor: ProcessorRef, now: i64)
    -> PipelineDefinition {
    PipelineDefinition { processor, updated_at: now, ..d }
}

/// A pipeline with a green processor beside its own.
pub open spec fn blue_green_started(d: PipelineDefinition, green: ProcessorRef, now: i64)
    -> PipelineDefinition {
    PipelineDefinition {
        state: PipelineState::Upgrading,
        upgrade_state: Some(
            UpgradeInfo::BlueGreen(
                BlueGreenState {
                    blue_processor: d.processor,
                    green_processor: green,
                    active: BlueGreenActive::Blue,
                    started_at: now,
                },
            ),
        ),
        updated_at: now,
        ..d
    }
}

/// A pipeline whose upgrade is over, with this processor.
pub open spec fn settled(d: PipelineDefinition, processor: ProcessorRef, now: i64)
    -> PipelineDefinition {
    PipelineDefinition {
        processor,
        state: PipelineState::Running,
        upgrade_state: None,
        updated_at: now,
        ..d
    }
}

/// Whether a pipeline is in a blue-green upgrade.
pub open spec fn in_blue_green(d: PipelineDefinition) -> bool {
    d.upgrade_state is Some && d.upgrade_state->0 is BlueGreen
}

/// Whether a pipeline is in a canary upgrade.
pub open spec fn in_canary(d: PipelineDefinition) -> bool {
    d.upgrade_state is Some && d.upgrade_state->0 is Canary
}

/// The processor that an upgrade in progress set out from.
pub open spec fn origin(u: UpgradeInfo) -> ProcessorRef {
    match u {
        UpgradeInfo::BlueGreen(bg) => bg.blue_processor,
        UpgradeInfo::Canary(cs) => cs.baseline_processor,
    }
}

/// A pipeline with a canary at the first step.
pub open spec fn canary_started(
    d: PipelineDefinition,
    canary: ProcessorRef,
    steps: Vec<u8>,
    thresholds: CanaryThresholds,
    now: i64,
) -> PipelineDefinition {
    PipelineDefinition {
        state: PipelineState::Upgrading,
        upgrade_state: Some(
            UpgradeInfo::Canary(
                CanaryState {
                    baseline_processor: d.processor,
                    canary_processor: canary,
                    traffic_pct: steps@[0],
                    steps,
                    current_step: 0,
                    thresholds,
                    started_at: now,
                },
            ),
        ),
        updated_at: now,
        ..d
    }
}

/// The canary of a pipeline.
pub open spec fn canary_of(d: PipelineDefinition) -> CanaryState {
    d.upgrade_state->0->Canary_0
}

/// Whether a canary has a step after the one it is at.
pub open spec fn has_next_step(cs: CanaryState) -> bool {
    cs.current_step + 1 < cs.steps@.len()
}

/// A pipeline whose canary has been moved on: to the next step, or from the last one to being
/// the pipeline's processor.
pub open spec fn promoted(d: PipelineDefinition, now: i64) -> PipelineDefinition {
    let cs = canary_of(d);
    if has_next_step(cs) {
        PipelineDefinition {
            upgrade_state: Some(
                UpgradeInfo::Canary(
                    CanaryState {
                        current_step: (cs.current_step + 1) as usize,
                        traffic_pct: cs.steps@[cs.current_step + 1],
                        ..cs
                    },
                ),
            ),
            updated_at: now,
            ..d
        }
    } else {
        settled(d, cs.canary_processor, now)
    }
}

/// The text of a processor at a percentage of the traffic.
pub open spec fn at_percent(p: ProcessorRef, pct: nat) -> Seq<char> {
    p.text() + " at "@ + decimal(pct) + "%"@
}

/// The refusal of a name that no pipeline has.
pub open spec fn is_unknown(e: AeonError, name: Seq<char>) -> bool {
    e is NotFound && e.text() == "pipeline '"@ + name + "'"@
}

/// The answer to a change of a pipeline that does not exist.
pub open spec fn answers_unknown(r: RegistryResponse, name: Seq<char>) -> bool {
    r is Error && r->message@ == "pipeline '"@ + name + "' not found"@
}

/// What is recorded of a state that was set from outside.
pub open spec fn action_of(state: PipelineState) -> PipelineAction {
    match state {
        PipelineState::Running => PipelineAction::Started,
        PipelineState::Stopped => PipelineAction::Stopped,
        PipelineState::Failed => PipelineAction::Failed,
        PipelineState::Upgrading => PipelineAction::UpgradeStarted,
        PipelineState::Created => PipelineAction::Created,
    }
}

fn unknown(name: &str) -> (r: AeonError)
    ensures
        is_unknown(r, name@),
{
    AeonError::not_found(join3("pipeline '", name, "'"))
}

fn percent_text(p: &ProcessorRef, pct: u8) -> (r: String)
    ensures
        r@ == at_percent(*p, pct as nat),
{
    let number = u64_text(pct as u64);
    let text = p.to_text();
    join4(text.as_str(), " at ", number.as_str(), "%")
}

/// What becomes of a request to start a pipeline.
pub open spec fn start_effect(
    before: &PipelineManager,
    after: &PipelineManager,
    name: Seq<char>,
    actor: Seq<char>,
    now: i64,
    r: Result<(), AeonError>,
) -> bool {
    let d = before.definitions()[name];
    if !before.definitions().contains_key(name) {
        r is Err && is_unknown(r->Err_0, name) && after.unchanged(before)
    } else if d.state == PipelineState::Created || d.state == PipelineState::Stopped {
        &&& r is Ok
        &&& after.definitions() == before.definitions().insert(
            name,
            in_state(d, PipelineState::Running, now),
        )
        &&& recorded(
            before.histories(),
            after.histories(),
            name,
            Entry {
                timestamp: now,
                action: PipelineAction::Started,
                actor: actor,
                from: d.state,
                to: PipelineState::Running,
                details: None,
            },
        )
    } else if d.state == PipelineState::Running {
        r is Ok && after.unchanged(before)
    } else {
        &&& r is Err
        &&& r->Err_0 is Config
        &&& r->Err_0.text() == "cannot start pipeline in state '"@ + d.state.text()
            + "'"@
        &&& after.unchanged(before)
    }
}

/// What becomes of a request to stop a pipeline.
pub open spec fn stop_effect(
    before: &PipelineManager,
    after: &PipelineManager,
    name: Seq<char>,
    actor: Seq<char>,
    now: i64,
    r: Result<(), AeonError>,
) -> bool {
    let d = before.definitions()[name];
    if !before.definitions().contains_key(name) {
        r is Err && is_unknown(r->Err_0, name) && after.unchanged(before)
    } else if d.state == PipelineState::Running || d.state
        == PipelineState::Upgrading {
        &&& r is Ok
        &&& after.definitions() == before.definitions().insert(
            name,
            in_state(d, PipelineState::Stopped, now),
        )
        &&& recorded(
            before.histories(),
            after.histories(),
            name,
            Entry {
                timestamp: now,
                action: PipelineAction::Stopped,
                actor: actor,
                from: d.state,
                to: PipelineState::Stopped,
                details: None,
            },
        )
    } else if d.state == PipelineState::Failed {
        &&& r is Err
        &&& r->Err_0 is Config
        &&& r->Err_0.text() == "cannot stop pipeline in state '"@ + d.state.text()
            + "'"@
        &&& after.unchanged(before)
    } else {
        r is Ok && after.unchanged(before)
    }
}

/// What becomes of a request to move a pipeline to another processor in one step.
pub open spec fn upgrade_effect(
    before: &PipelineManager,
    after: &PipelineManager,
    name: Seq<char>,
    new_processor: ProcessorRef,
    actor: Seq<char>,
    now: i64,
    r: Result<(), AeonError>,
) -> bool {
    let d = before.definitions()[name];
    if !before.definitions().contains_key(name) {
        r is Err && is_unknown(r->Err_0, name) && after.unchanged(before)
    } else if d.state != PipelineState::Running {
        &&& r is Err
        &&& r->Err_0 is Config
        &&& r->Err_0.text() == "can only upgrade running pipelines, current state: "@
            + d.state.text()
        &&& after.unchanged(before)
    } else {
        &&& r is Ok
        &&& after.definitions() == before.definitions().insert(
            name,
            upgraded(d, new_processor, now),
        )
        &&& exists|between: Histories| #[trigger]
            recorded(
                before.histories(),
                between,
                name,
                Entry {
                    timestamp: now,
                    action: PipelineAction::UpgradeStarted,
                    actor: actor,
                    from: PipelineState::Running,
                    to: PipelineState::Upgrading,
                    details: Some(
                        d.processor.text() + " → "@ + new_processor.text(),
                    ),
                },
            ) && recorded(
                between,
                after.histories(),
                name,
                Entry {
                    timestamp: now,
                    action: PipelineAction::UpgradeCompleted,
                    actor: actor,
                    from: PipelineState::Upgrading,
                    to: PipelineState::Running,
                    details: Some(new_processor.text()),
                },
            )
    }
}

/// What becomes of a request to start a blue-green upgrade.
pub open spec fn blue_green_effect(
    before: &PipelineManager,
    after: &PipelineManager,
    name: Seq<char>,
    new_processor: ProcessorRef,
    actor: Seq<char>,
    now: i64,
    r: Result<(), AeonError>,
) -> bool {
    let d = before.definitions()[name];
    if !before.definitions().contains_key(name) {
        r is Err && is_unknown(r->Err_0, name) && after.unchanged(before)
    } else if d.state != PipelineState::Running {
        &&& r is Err
        &&& r->Err_0 is Config
        &&& r->Err_0.text()
            == "can only start blue-green on running pipelines, current state: "@
            + d.state.text()
        &&& after.unchanged(before)
    } else if d.upgrade_state is Some {
        &&& r is Err
        &&& r->Err_0 is Config
        &&& r->Err_0.text() == "pipeline '"@ + name
            + "' already has an upgrade in progress"@
        &&& after.unchanged(before)
    } else {
        &&& r is Ok
        &&& after.definitions() == before.definitions().insert(
            name,
            blue_green_started(d, new_processor, now),
        )
        &&& recorded(
            before.histories(),
            after.histories(),
            name,
            Entry {
                timestamp: now,
                action: PipelineAction::BlueGreenStarted,
                actor: actor,
                from: PipelineState::Running,
                to: PipelineState::Upgrading,
                details: Some("green: "@ + new_processor.text()),
            },
        )
    }
}

/// What becomes of a request to cut over to green.
pub open spec fn cutover_effect(
    before: &PipelineManager,
    after: &PipelineManager,
    name: Seq<char>,
    actor: Seq<char>,
    now: i64,
    r: Result<(), AeonError>,
) -> bool {
    let d = before.definitions()[name];
    if !before.definitions().contains_key(name) {
        r is Err && is_unknown(r->Err_0, name) && after.unchanged(before)
    } else if !in_blue_green(d) {
        &&& r is Err
        &&& r->Err_0 is Config
        &&& r->Err_0.text() == "pipeline '"@ + name
            + "' is not in a blue-green upgrade"@
        &&& after.unchanged(before)
    } else {
        let bg = d.upgrade_state->0->BlueGreen_0;
        if bg.active == BlueGreenActive::Green {
            &&& r is Err
            &&& r->Err_0 is Config
            &&& r->Err_0.text() == "already cut over to green"@
            &&& after.unchanged(before)
        } else {
            &&& r is Ok
            &&& after.definitions() == before.definitions().insert(
                name,
                settled(d, bg.green_processor, now),
            )
            &&& recorded(
                before.histories(),
                after.histories(),
                name,
                Entry {
                    timestamp: now,
                    action: PipelineAction::BlueGreenCutover,
                    actor: actor,
                    from: PipelineState::Upgrading,
                    to: PipelineState::Running,
                    details: Some(bg.green_processor.text()),
                },
            )
        }
    }
}

/// What becomes of a request to roll an upgrade back.
pub open spec fn rollback_effect(
    before: &PipelineManager,
    after: &PipelineManager,
    name: Seq<char>,
    actor: Seq<char>,
    now: i64,
    r: Result<(), AeonError>,
) -> bool {
    let d = before.definitions()[name];
    if !before.definitions().contains_key(name) {
        r is Err && is_unknown(r->Err_0, name) && after.unchanged(before)
    } else if d.upgrade_state is None {
        &&& r is Err
        &&& r->Err_0 is Config
        &&& r->Err_0.text() == "pipeline '"@ + name
            + "' has no upgrade in progress"@
        &&& after.unchanged(before)
    } else {
        &&& r is Ok
        &&& after.definitions() == before.definitions().insert(
            name,
            settled(d, origin(d.upgrade_state->0), now),
        )
        &&& recorded(
            before.histories(),
            after.histories(),
            name,
            Entry {
                timestamp: now,
                action: PipelineAction::UpgradeRolledBack,
                actor: actor,
                from: PipelineState::Upgrading,
                to: PipelineState::Running,
                details: Some("rolled back to previous processor"@),
            },
        )
    }
}

/// What becomes of a request to start a canary upgrade.
pub open spec fn canary_effect(
    before: &PipelineManager,
    after: &PipelineManager,
    name: Seq<char>,
    new_processor: ProcessorRef,
    steps: Vec<u8>,
    thresholds: CanaryThresholds,
    actor: Seq<char>,
    now: i64,
    r: Result<(), AeonError>,
) -> bool {
    let d = before.definitions()[name];
    if !before.definitions().contains_key(name) {
        r is Err && is_unknown(r->Err_0, name) && after.unchanged(before)
    } else if d.state != PipelineState::Running {
        &&& r is Err
        &&& r->Err_0 is Config
        &&& r->Err_0.text()
            == "can only start canary on running pipelines, current state: "@
            + d.state.text()
        &&& after.unchanged(before)
    } else if d.upgrade_state is Some {
        &&& r is Err
        &&& r->Err_0 is Config
        &&& r->Err_0.text() == "pipeline '"@ + name
            + "' already has an upgrade in progress"@
        &&& after.unchanged(before)
    } else if steps@.len() == 0 {
        &&& r is Err
        &&& r->Err_0 is Config
        &&& r->Err_0.text() == "canary steps must not be empty"@
        &&& after.unchanged(before)
    } else {
        &&& r is Ok
        &&& after.definitions() == before.definitions().insert(
            name,
            canary_started(d, new_processor, steps, thresholds, now),
        )
        &&& recorded(
            before.histories(),
            after.histories(),
            name,
            Entry {
                timestamp: now,
                action: PipelineAction::CanaryStarted,
                actor: actor,
                from: PipelineState::Running,
                to: PipelineState::Upgrading,
                details: Some(at_percent(new_processor, steps@[0] as nat)),
            },
        )
    }
}

/// What becomes of a request to move a canary on.
pub open spec fn promote_effect(
    before: &PipelineManager,
    after: &PipelineManager,
    name: Seq<char>,
    actor: Seq<char>,
    now: i64,
    r: Result<(), AeonError>,
) -> bool {
    let d = before.definitions()[name];
    if !before.definitions().contains_key(name) {
        r is Err && is_unknown(r->Err_0, name) && after.unchanged(before)
    } else if !in_canary(d) {
        &&& r is Err
        &&& r->Err_0 is Config
        &&& r->Err_0.text() == "pipeline '"@ + name
            + "' is not in a canary upgrade"@
        &&& after.unchanged(before)
    } else {
        let cs = canary_of(d);
        &&& r is Ok
        &&& after.definitions() == before.definitions().insert(
            name,
            promoted(d, now),
        )
        &&& recorded(
            before.histories(),
            after.histories(),
            name,
            if has_next_step(cs) {
                Entry {
                    timestamp: now,
                    action: PipelineAction::CanaryPromoted,
                    actor: actor,
                    from: PipelineState::Upgrading,
                    to: PipelineState::Upgrading,
                    details: Some(
                        at_percent(
                            cs.canary_processor,
                            cs.steps@[cs.current_step + 1] as nat,
                        ),
                    ),
                }
            } else {
                Entry {
                    timestamp: now,
                    action: PipelineAction::CanaryCompleted,
                    actor: actor,
                    from: PipelineState::Upgrading,
                    to: PipelineState::Running,
                    details: Some(at_percent(cs.canary_processor, 100)),
                }
            },
        )
    }
}

/// What becomes of a request to change the source of a pipeline.
pub open spec fn reconfigure_source_effect(
    before: &PipelineManager,
    after: &PipelineManager,
    name: Seq<char>,
    new_source: SourceConfig,
    now: i64,
    r: Result<(), AeonError>,
) -> bool {
    let d = before.definitions()[name];
    if !before.definitions().contains_key(name) {
        r is Err && is_unknown(r->Err_0, name) && after.unchanged(before)
    } else if d.sources@.len() == 0 || d.sources@[0].source_type@
        != new_source.source_type@ {
        &&& r is Err
        &&& r->Err_0 is Config
        &&& r->Err_0.text() == "cannot change the source type of pipeline '"@ + name
            + "'"@
        &&& after.unchanged(before)
    } else {
        let changed = after.definitions()[name];
        &&& r is Ok
        &&& after.histories() == before.histories()
        &&& after.definitions() == before.definitions().insert(name, changed)
        &&& changed.sources@ == d.sources@.update(0, new_source)
        &&& changed == PipelineDefinition {
            sources: changed.sources,
            updated_at: now,
            ..d
        }
    }
}

/// What becomes of a request to change the sink of a pipeline.
pub open spec fn reconfigure_sink_effect(
    before: &PipelineManager,
    after: &PipelineManager,
    name: Seq<char>,
    new_sink: SinkConfig,
    now: i64,
    r: Result<(), AeonError>,
) -> bool {
    let d = before.definitions()[name];
    if !before.definitions().contains_key(name) {
        r is Err && is_unknown(r->Err_0, name) && after.unchanged(before)
    } else if d.sinks@.len() == 0 || d.sinks@[0].sink_type@ != new_sink.sink_type@ {
        &&& r is Err
        &&& r->Err_0 is Config
        &&& r->Err_0.text() == "cannot change the sink type of pipeline '"@ + name
            + "'"@
        &&& after.unchanged(before)
    } else {
        let changed = after.definitions()[name];
        &&& r is Ok
        &&& after.histories() == before.histories()
        &&& after.definitions() == before.definitions().insert(name, changed)
        &&& changed.sinks@ == d.sinks@.update(0, new_sink)
        &&& changed == PipelineDefinition { sinks: changed.sinks, updated_at: now, ..d }
    }
}

/// What becomes of a request to delete a pipeline.
pub open spec fn delete_effect(
    before: &PipelineManager,
    after: &PipelineManager,
    name: Seq<char>,
    r: Result<(), AeonError>,
) -> bool {
    let d = before.definitions()[name];
    if !before.definitions().contains_key(name) {
        r is Err && is_unknown(r->Err_0, name) && after.unchanged(before)
    } else if d.state == PipelineState::Running || d.state
        == PipelineState::Upgrading {
        &&& r is Err
        &&& r->Err_0 is Config
        &&& r->Err_0.text() == "cannot delete pipeline in state '"@ + d.state.text()
            + "' — stop it first"@
        &&& after.unchanged(before)
    } else {
        &&& r is Ok
        &&& after.definitions() == before.definitions().remove(name)
        &&& after.histories() == before.histories().remove(name)
    }
}

/// What becomes of a request to create a pipeline.
pub open spec fn create_effect(
    before: &PipelineManager,
    after: &PipelineManager,
    definition: PipelineDefinition,
    now: i64,
    r: Result<RegistryResponse, AeonError>,
) -> bool {
    if before.definitions().contains_key(definition.name@) {
        &&& r is Err
        &&& r->Err_0 is Config
        &&& r->Err_0.text() == "pipeline '"@ + definition.name@ + "' already exists"@
        &&& after.unchanged(before)
    } else {
        r is Ok && created(before, after, definition, r->Ok_0, now)
    }
}

impl PipelineManager {
    pub closed spec fn wf(&self) -> bool {
        &&& self.pipelines.wf()
        &&& self.history.wf()
        &&& forall|k: Seq<char>| #[trigger] self.pipelines@.contains_key(k) ==> self.pipelines@[k].wf()
    }

    /// The pipelines by name.
    pub closed spec fn definitions(&self) -> Definitions {
        self.pipelines@
    }

    /// The names of the pipelines in order.
    pub closed spec fn names_in_order(&self) -> Seq<Seq<char>> {
        self.pipelines.names_in_order()
    }

    /// The histories by name.
    pub closed spec fn histories(&self) -> Histories {
        self.history@.map_values(|v: Vec<PipelineHistoryEntry>| v@)
    }

    /// Nothing has changed.
    pub open spec fn unchanged(&self, before: &Self) -> bool {
        self.definitions() == before.definitions() && self.histories() == before.histories()
    }

    /// The names in order are sorted and are exactly those of the pipelines.
    pub proof fn lemma_names(&self)
        requires
            self.wf(),
        ensures
            crate::name_map::strictly_sorted(self.names_in_order()),
            self.names_in_order().to_set() == self.definitions().dom(),
    {
        self.pipelines.lemma_names();
    }

    /// A manager of no pipelines.
    pub fn new() -> (r: Self)
        ensures
            r.wf(),
            r.definitions() == Definitions::empty(),
            r.histories() == Histories::empty(),
    {
        let r = PipelineManager { pipelines: NameMap::new(), history: NameMap::new() };
        assert(r.histories() =~= Histories::empty());
        r
    }

    fn record_history(
        &mut self,
        name: &str,
        action: PipelineAction,
        actor: &str,
        from: PipelineState,
        to: PipelineState,
        details: Option<String>,
        now: i64,
    )
        requires
            old(self).wf(),
        ensures
            final(self).wf(),
            final(self).definitions() == old(self).definitions(),
            final(self).names_in_order() == old(self).names_in_order(),
            recorded(
                old(self).histories(),
                final(self).histories(),
                name@,
                Entry {
                    timestamp: now,
                    action,
                    actor: actor@,
                    from,
                    to,
                    details: (match details {
                        Some(d) => Some(d@),
                        None => None,
                    }),
                },
            ),
    {
        let entry = PipelineHistoryEntry {
            timestamp: now,
            action,
            actor: actor.to_owned(),
            from_state: from,
            to_state: to,
            details,
        };
        let ghost before = self.histories();
        let ghost said = entry;
        match self.history.get_mut(name) {
            Some(entries) => {
                entries.push(entry);
            },
            None => {
                let mut entries: Vec<PipelineHistoryEntry> = Vec::new();
                entries.push(entry);
                self.history.insert(name.to_owned(), entries);
            },
        }
        proof {
            let after = self.histories();
            assert(after[name@] =~= history_of(before, name@).push(said));
            assert(after =~= before.insert(name@, history_of(before, name@).push(said)));
            assert(after[name@].last() == said);
        }
    }

    /// Applies a replicated change. Changes of processors are not for this manager.
    pub fn apply(&mut self, cmd: RegistryCommand, now: i64) -> (r: RegistryResponse)
        requires
            old(self).wf(),
            cmd is CreatePipeline ==> cmd->definition.wf(),
        ensures
            final(self).wf(),
            match cmd {
                RegistryCommand::CreatePipeline { definition } => created(
                    old(self),
                    final(self),
                    *definition,
                    r,
                    now,
                ),
                RegistryCommand::SetPipelineState { name, state } => state_set(
                    old(self),
                    final(self),
                    name@,
                    state,
                    "system"@,
                    r,
                    now,
                ),
                RegistryCommand::UpgradePipeline { name, new_processor } => {
                    if old(self).definitions().contains_key(name@) {
                        &&& r is Done
                        &&& final(self).definitions() == old(self).definitions().insert(
                            name@,
                            upgraded(old(self).definitions()[name@], new_processor, now),
                        )
                        &&& final(self).histories() == old(self).histories()
                    } else {
                        answers_unknown(r, name@) && final(self).unchanged(old(self))
                    }
                },
                RegistryCommand::DeletePipeline { name } => {
                    if old(self).definitions().contains_key(name@) {
                        &&& r is Done
                        &&& final(self).definitions() == old(self).definitions().remove(name@)
                        &&& final(self).histories() == old(self).histories().remove(name@)
                    } else {
                        answers_unknown(r, name@) && final(self).unchanged(old(self))
                    }
                },
                _ => r is Error && r->message@ == "command not handled by PipelineManager"@
                    && final(self).unchanged(old(self)),
            },
    {
        match cmd {
            RegistryCommand::CreatePipeline { definition } => self.apply_create(*definition, now),
            RegistryCommand::SetPipelineState { name, state } => self.apply_set_state(
                name.as_str(),
                state,
                "system",
                now,
            ),
            RegistryCommand::UpgradePipeline { name, new_processor } => {
                match self.pipelines.get_mut(name.as_str()) {
                    Some(p) => {
                        p.processor = new_processor;
                        p.updated_at = now;
                        RegistryResponse::Done
                    },
                    None => RegistryResponse::Error {
                        message: join3("pipeline '", name.as_str(), "' not found"),
                    },
                }
            },
            RegistryCommand::DeletePipeline { name } => {
                match self.pipelines.remove(name.as_str()) {
                    Some(_) => {
                        self.history.remove(name.as_str());
                        assert(self.histories() =~= old(self).histories().remove(name@));
                        RegistryResponse::Done
                    },
                    None => {
                        assert(self.definitions() =~= old(self).definitions());
                        RegistryResponse::Error {
                            message: join3("pipeline '", name.as_str(), "' not found"),
                        }
                    },
                }
            },
            _ => RegistryResponse::Error {
                message: "command not handled by PipelineManager".to_owned(),
            },
        }
    }

    fn apply_create(&mut self, definition: PipelineDefinition, now: i64) -> (r: RegistryResponse)
        requires
            old(self).wf(),
            definition.wf(),
        ensures
            final(self).wf(),
            created(old(self), final(self), definition, r, now),
    {
        if self.pipelines.contains(definition.name.as_str()) {
            return RegistryResponse::Error {
                message: join3("pipeline '", definition.name.as_str(), "' already exists"),
            };
        }
        let name = definition.name.clone();
        self.record_history(
            name.as_str(),
            PipelineAction::Created,
            "system",
            PipelineState::Created,
            PipelineState::Created,
            None,
            now,
        );
        self.pipelines.insert(name.clone(), definition);
        RegistryResponse::PipelineCreated { name }
    }

    fn apply_set_state(&mut self, name: &str, state: PipelineState, actor: &str, now: i64) -> (r:
        RegistryResponse)
        requires
            old(self).wf(),
        ensures
            final(self).wf(),
            state_set(old(self), final(self), name@, state, actor@, r, now),
    {
        let from = match self.pipelines.get_mut(name) {
            Some(p) => {
                let from = p.state;
                p.state = state;
                p.updated_at = now;
                from
            },
            None => {
                return RegistryResponse::Error {
                    message: join3("pipeline '", name, "' not found"),
                };
            },
        };
        let action = match state {
            PipelineState::Running => PipelineAction::Started,
            PipelineState::Stopped => PipelineAction::Stopped,
            PipelineState::Failed => PipelineAction::Failed,
            PipelineState::Upgrading => PipelineAction::UpgradeStarted,
            PipelineState::Created => PipelineAction::Created,
        };
        self.record_history(name, action, actor, from, state, None, now);
        RegistryResponse::Done
    }

    /// Creates a pipeline. A name is taken once.
    pub fn create(&mut self, definition: PipelineDefinition, now: i64) -> (r: Result<
        RegistryResponse,
        AeonError,
    >)
        requires
            old(self).wf(),
            definition.wf(),
        ensures
            final(self).wf(),
            create_effect(old(self), final(self), definition, now, r),
    {
        if self.pipelines.contains(definition.name.as_str()) {
            return Err(
                AeonError::config(
                    join3("pipeline '", definition.name.as_str(), "' already exists"),
                ),
            );
        }
        Ok(self.apply_create(definition, now))
    }

    /// Starts a pipeline that was created or stopped. A running one is left as it is.
    pub fn start(&mut self, name: &str, actor: &str, now: i64) -> (r: Result<(), AeonError>)
        requires
            old(self).wf(),
        ensures
            final(self).wf(),
            start_effect(
                old(self),
                final(self),
                name@,
                actor@,
                now,
                r,
            ),
    {
        let from = match self.pipelines.get(name) {
            Some(p) => p.state,
            None => {
                return Err(unknown(name));
            },
        };
        match from {
            PipelineState::Created | PipelineState::Stopped => {
                self.set_state(name, PipelineState::Running, now);
                self.record_history(
                    name,
                    PipelineAction::Started,
                    actor,
                    from,
                    PipelineState::Running,
                    None,
                    now,
                );
                Ok(())
            },
            PipelineState::Running => Ok(()),
            _ => Err(
                AeonError::config(
                    join3("cannot start pipeline in state '", from.as_text(), "'"),
                ),
            ),
        }
    }

    /// Stops a pipeline that runs or is being upgraded. One that does not run is left as it is.
    pub fn stop(&mut self, name: &str, actor: &str, now: i64) -> (r: Result<(), AeonError>)
        requires
            old(self).wf(),
        ensures
            final(self).wf(),
            stop_effect(
                old(self),
                final(self),
                name@,
                actor@,
                now,
                r,
            ),
    {
        let from = match self.pipelines.get(name) {
            Some(p) => p.state,
            None => {
                return Err(unknown(name));
            },
        };
        match from {
            PipelineState::Running | PipelineState::Upgrading => {
                self.set_state(name, PipelineState::Stopped, now);
                self.record_history(
                    name,
                    PipelineAction::Stopped,
                    actor,
                    from,
                    PipelineState::Stopped,
                    None,
                    now,
                );
                Ok(())
            },
            PipelineState::Stopped | PipelineState::Created => Ok(()),
            _ => Err(
                AeonError::config(join3("cannot stop pipeline in state '", from.as_text(), "'")),
            ),
        }
    }

    fn set_state(&mut self, name: &str, state: PipelineState, now: i64)
        requires
            old(self).wf(),
            old(self).definitions().contains_key(name@),
        ensures
            final(self).wf(),
            final(self).histories() == old(self).histories(),
            final(self).definitions() == old(self).definitions().insert(
                name@,
                in_state(old(self).definitions()[name@], state, now),
            ),
    {
        match self.pipelines.get_mut(name) {
            Some(p) => {
                p.state = state;
                p.updated_at = now;
            },
            None => {},
        }
    }

    /// The definition of a pipeline.
    pub fn get(&self, name: &str) -> (r: Option<&PipelineDefinition>)
        requires
            self.wf(),
        ensures
            match r {
                Some(d) => self.definitions().contains_key(name@) && *d
                    == self.definitions()[name@],
                None => !self.definitions().contains_key(name@),
            },
    {
        self.pipelines.get(name)
    }

    /// The names of all pipelines, in order.
    pub fn list(&self) -> (r: Vec<String>)
        requires
            self.wf(),
        ensures
            r@.map_values(|s: String| s@) == self.names_in_order(),
    {
        self.pipelines.names()
    }

    /// The names of all pipelines with their states, in order.
    pub fn list_with_state(&self) -> (r: Vec<(String, PipelineState)>)
        requires
            self.wf(),
        ensures
            r@.len() == self.names_in_order().len(),
            forall|i: int|
                0 <= i < r@.len() ==> (#[trigger] r@[i]).0@ == self.names_in_order()[i]
                    && self.definitions().contains_key(r@[i].0@) && r@[i].1
                    == self.definitions()[r@[i].0@].state,
    {
        let mut out: Vec<(String, PipelineState)> = Vec::new();
        let n = self.pipelines.len();
        let mut i: usize = 0;
        while i < n
            invariant
                self.wf(),
                n == self.names_in_order().len(),
                i <= n,
                out@.len() == i,
                forall|j: int|
                    0 <= j < i ==> (#[trigger] out@[j]).0@ == self.names_in_order()[j]
                        && self.definitions().contains_key(out@[j].0@) && out@[j].1
                        == self.definitions()[out@[j].0@].state,
            decreases n - i,
        {
            let e = self.pipelines.at(i);
            out.push((e.0.clone(), e.1.state));
            i += 1;
        }
        out
    }

    /// The history of a pipeline, oldest first; empty where there is none.
    pub fn history(&self, name: &str) -> (r: &[PipelineHistoryEntry])
        requires
            self.wf(),
        ensures
            r@ == history_of(self.histories(), name@),
    {
        match self.history.get(name) {
            Some(entries) => entries.as_slice(),
            None => {
                let empty: &[PipelineHistoryEntry] = &[];
                assert(empty@ =~= seq![]);
                empty
            },
        }
    }

    /// Moves a running pipeline to another processor in one step.
    pub fn upgrade(&mut self, name: &str, new_processor: ProcessorRef, actor: &str, now: i64) -> (r:
        Result<(), AeonError>)
        requires
            old(self).wf(),
        ensures
            final(self).wf(),
            upgrade_effect(
                old(self),
                final(self),
                name@,
                new_processor,
                actor@,
                now,
                r,
            ),
    {
        let details = match self.pipelines.get(name) {
            Some(p) => {
                match p.state {
                    PipelineState::Running => {},
                    other => {
                        return Err(
                            AeonError::config(
                                join2(
                                    "can only upgrade running pipelines, current state: ",
                                    other.as_text(),
                                ),
                            ),
                        );
                    },
                }
                join3(p.processor.to_text().as_str(), " → ", new_processor.to_text().as_str())
            },
            None => {
                return Err(unknown(name));
            },
        };
        let new_text = new_processor.to_text();
        self.record_history(
            name,
            PipelineAction::UpgradeStarted,
            actor,
            PipelineState::Running,
            PipelineState::Upgrading,
            Some(details),
            now,
        );
        let ghost between = self.histories();
        match self.pipelines.get_mut(name) {
            Some(p) => {
                p.processor = new_processor;
                p.updated_at = now;
            },
            None => {},
        }
        assert(self.histories() == between);
        self.record_history(
            name,
            PipelineAction::UpgradeCompleted,
            actor,
            PipelineState::Upgrading,
            PipelineState::Running,
            Some(new_text),
            now,
        );
        Ok(())
    }

    /// Puts a green processor beside the processor of a running pipeline.
    pub fn upgrade_blue_green(
        &mut self,
        name: &str,
        new_processor: ProcessorRef,
        actor: &str,
        now: i64,
    ) -> (r: Result<(), AeonError>)
        requires
            old(self).wf(),
        ensures
            final(self).wf(),
            blue_green_effect(
                old(self),
                final(self),
                name@,
                new_processor,
                actor@,
                now,
                r,
            ),
    {
        match self.pipelines.get(name) {
            Some(p) => {
                match p.state {
                    PipelineState::Running => {},
                    other => {
                        return Err(
                            AeonError::config(
                                join2(
                                    "can only start blue-green on running pipelines, current state: ",
                                    other.as_text(),
                                ),
                            ),
                        );
                    },
                }
                if p.upgrade_state.is_some() {
                    return Err(
                        AeonError::config(
                            join3("pipeline '", name, "' already has an upgrade in progress"),
                        ),
                    );
                }
            },
            None => {
                return Err(unknown(name));
            },
        }
        let details = join2("green: ", new_processor.to_text().as_str());
        match self.pipelines.get_mut(name) {
            Some(p) => {
                let blue_processor = p.processor.copy();
                p.state = PipelineState::Upgrading;
                p.upgrade_state = Some(
                    UpgradeInfo::BlueGreen(
                        BlueGreenState {
                            blue_processor,
                            green_processor: new_processor,
                            active: BlueGreenActive::Blue,
                            started_at: now,
                        },
                    ),
                );
                p.updated_at = now;
            },
            None => {},
        }
        assert(self.histories() == old(self).histories());
        self.record_history(
            name,
            PipelineAction::BlueGreenStarted,
            actor,
            PipelineState::Running,
            PipelineState::Upgrading,
            Some(details),
            now,
        );
        Ok(())
    }

    /// Makes the green processor of a blue-green upgrade the pipeline's own.
    pub fn cutover(&mut self, name: &str, actor: &str, now: i64) -> (r: Result<(), AeonError>)
        requires
            old(self).wf(),
        ensures
            final(self).wf(),
            cutover_effect(
                old(self),
                final(self),
                name@,
                actor@,
                now,
                r,
            ),
    {
        let green = match self.pipelines.get(name) {
            Some(p) => match &p.upgrade_state {
                Some(UpgradeInfo::BlueGreen(bg)) => {
                    if bg.active == BlueGreenActive::Green {
                        return Err(AeonError::config("already cut over to green".to_owned()));
                    }
                    bg.green_processor.copy()
                },
                _ => {
                    return Err(
                        AeonError::config(
                            join3("pipeline '", name, "' is not in a blue-green upgrade"),
                        ),
                    );
                },
            },
            None => {
                return Err(unknown(name));
            },
        };
        let details = green.to_text();
        self.settle(name, green, now);
        self.record_history(
            name,
            PipelineAction::BlueGreenCutover,
            actor,
            PipelineState::Upgrading,
            PipelineState::Running,
            Some(details),
            now,
        );
        Ok(())
    }

    fn settle(&mut self, name: &str, processor: ProcessorRef, now: i64)
        requires
            old(self).wf(),
            old(self).definitions().contains_key(name@),
        ensures
            final(self).wf(),
            final(self).histories() == old(self).histories(),
            final(self).definitions() == old(self).definitions().insert(
                name@,
                settled(old(self).definitions()[name@], processor, now),
            ),
    {
        match self.pipelines.get_mut(name) {
            Some(p) => {
                p.processor = processor;
                p.state = PipelineState::Running;
                p.upgrade_state = None;
                p.updated_at = now;
            },
            None => {},
        }
    }

    /// Rolls an upgrade in progress back to the processor it set out from.
    pub fn rollback_upgrade(&mut self, name: &str, actor: &str, now: i64) -> (r: Result<
        (),
        AeonError,
    >)
        requires
            old(self).wf(),
        ensures
            final(self).wf(),
            rollback_effect(
                old(self),
                final(self),
                name@,
                actor@,
                now,
                r,
            ),
    {
        let original = match self.pipelines.get(name) {
            Some(p) => match &p.upgrade_state {
                Some(UpgradeInfo::BlueGreen(bg)) => bg.blue_processor.copy(),
                Some(UpgradeInfo::Canary(cs)) => cs.baseline_processor.copy(),
                None => {
                    return Err(
                        AeonError::config(
                            join3("pipeline '", name, "' has no upgrade in progress"),
                        ),
                    );
                },
            },
            None => {
                return Err(unknown(name));
            },
        };
        self.settle(name, original, now);
        self.record_history(
            name,
            PipelineAction::UpgradeRolledBack,
            actor,
            PipelineState::Upgrading,
            PipelineState::Running,
            Some("rolled back to previous processor".to_owned()),
            now,
        );
        Ok(())
    }

    /// Starts to move a running pipeline to another processor, one step of the traffic at a time.
    pub fn upgrade_canary(
        &mut self,
        name: &str,
        new_processor: ProcessorRef,
        steps: Vec<u8>,
        thresholds: CanaryThresholds,
        actor: &str,
        now: i64,
    ) -> (r: Result<(), AeonError>)
        requires
            old(self).wf(),
        ensures
            final(self).wf(),
            canary_effect(
                old(self),
                final(self),
                name@,
                new_processor,
                steps,
                thresholds,
                actor@,
                now,
                r,
            ),
    {
        match self.pipelines.get(name) {
            Some(p) => {
                match p.state {
                    PipelineState::Running => {},
                    other => {
                        return Err(
                            AeonError::config(
                                join2(
                                    "can only start canary on running pipelines, current state: ",
                                    other.as_text(),
                                ),
                            ),
                        );
                    },
                }
                if p.upgrade_state.is_some() {
                    return Err(
                        AeonError::config(
                            join3("pipeline '", name, "' already has an upgrade in progress"),
                        ),
                    );
                }
            },
            None => {
                return Err(unknown(name));
            },
        }
        if steps.len() == 0 {
            return Err(AeonError::config("canary steps must not be empty".to_owned()));
        }
        let initial_pct: u8 = steps[0];
        let details = percent_text(&new_processor, initial_pct);
        match self.pipelines.get_mut(name) {
            Some(p) => {
                let baseline_processor = p.processor.copy();
                p.state = PipelineState::Upgrading;
                p.upgrade_state = Some(
                    UpgradeInfo::Canary(
                        CanaryState {
                            baseline_processor,
                            canary_processor: new_processor,
                            traffic_pct: initial_pct,
                            steps,
                            current_step: 0,
                            thresholds,
                            started_at: now,
                        },
                    ),
                );
                p.updated_at = now;
            },
            None => {},
        }
        assert(self.histories() == old(self).histories());
        self.record_history(
            name,
            PipelineAction::CanaryStarted,
            actor,
            PipelineState::Running,
            PipelineState::Upgrading,
            Some(details),
            now,
        );
        Ok(())
    }

    /// Moves a canary on to its next step, or from the last one to being the pipeline's
    /// processor.
    pub fn promote_canary(&mut self, name: &str, actor: &str, now: i64) -> (r: Result<
        (),
        AeonError,
    >)
        requires
            old(self).wf(),
        ensures
            final(self).wf(),
            promote_effect(
                old(self),
                final(self),
                name@,
                actor@,
                now,
                r,
            ),
    {
        let (next_step, next_pct, canary) = match self.pipelines.get(name) {
            Some(p) => match &p.upgrade_state {
                Some(UpgradeInfo::Canary(cs)) => {
                    let next_step: usize = cs.current_step + 1;
                    let next_pct: Option<u8> = if next_step < cs.steps.len() {
                        Some(cs.steps[next_step])
                    } else {
                        None
                    };
                    (next_step, next_pct, cs.canary_processor.copy())
                },
                _ => {
                    return Err(
                        AeonError::config(
                            join3("pipeline '", name, "' is not in a canary upgrade"),
                        ),
                    );
                },
            },
            None => {
                return Err(unknown(name));
            },
        };
        match next_pct {
            Some(pct) => {
                let details = percent_text(&canary, pct);
                match self.pipelines.get_mut(name) {
                    Some(p) => {
                        match &mut p.upgrade_state {
                            Some(UpgradeInfo::Canary(cs)) => {
                                cs.current_step = next_step;
                                cs.traffic_pct = pct;
                            },
                            _ => {},
                        }
                        p.updated_at = now;
                    },
                    None => {},
                }
                assert(self.histories() == old(self).histories());
                self.record_history(
                    name,
                    PipelineAction::CanaryPromoted,
                    actor,
                    PipelineState::Upgrading,
                    PipelineState::Upgrading,
                    Some(details),
                    now,
                );
            },
            None => {
                let details = percent_text(&canary, 100);
                self.settle(name, canary, now);
                self.record_history(
                    name,
                    PipelineAction::CanaryCompleted,
                    actor,
                    PipelineState::Upgrading,
                    PipelineState::Running,
                    Some(details),
                    now,
                );
            },
        }
        Ok(())
    }

    /// The canary upgrade of a pipeline, where one is in progress.
    pub fn canary_status(&self, name: &str) -> (r: Option<&CanaryState>)
        requires
            self.wf(),
        ensures
            match r {
                Some(cs) => self.definitions().contains_key(name@) && in_canary(
                    self.definitions()[name@],
                ) && *cs == canary_of(self.definitions()[name@]),
                None => !self.definitions().contains_key(name@) || !in_canary(
                    self.definitions()[name@],
                ),
            },
    {
        match self.pipelines.get(name) {
            Some(p) => match &p.upgrade_state {
                Some(UpgradeInfo::Canary(cs)) => Some(cs),
                _ => None,
            },
            None => None,
        }
    }

    /// Points a pipeline's source elsewhere. The source stays of its type.
    pub fn reconfigure_source(&mut self, name: &str, new_source: SourceConfig, now: i64) -> (r:
        Result<(), AeonError>)
        requires
            old(self).wf(),
        ensures
            final(self).wf(),
            reconfigure_source_effect(
                old(self),
                final(self),
                name@,
                new_source,
                now,
                r,
            ),
    {
        match self.pipelines.get_mut(name) {
            None => {
                return Err(unknown(name));
            },
            Some(p) => {
                if p.sources.len() > 0 && same_text(
                    p.sources[0].source_type.as_str(),
                    new_source.source_type.as_str(),
                ) {
                    p.sources.set(0, new_source);
                    p.updated_at = now;
                    return Ok(());
                }
            },
        }
        assert(self.definitions() =~= old(self).definitions());
        Err(
            AeonError::config(join3("cannot change the source type of pipeline '", name, "'")),
        )
    }

    /// Points a pipeline's sink elsewhere. The sink stays of its type.
    pub fn reconfigure_sink(&mut self, name: &str, new_sink: SinkConfig, now: i64) -> (r: Result<
        (),
        AeonError,
    >)
        requires
            old(self).wf(),
        ensures
            final(self).wf(),
            reconfigure_sink_effect(
                old(self),
                final(self),
                name@,
                new_sink,
                now,
                r,
            ),
    {
        match self.pipelines.get_mut(name) {
            None => {
                return Err(unknown(name));
            },
            Some(p) => {
                if p.sinks.len() > 0 && same_text(
                    p.sinks[0].sink_type.as_str(),
                    new_sink.sink_type.as_str(),
                ) {
                    p.sinks.set(0, new_sink);
                    p.updated_at = now;
                    return Ok(());
                }
            },
        }
        assert(self.definitions() =~= old(self).definitions());
        Err(AeonError::config(join3("cannot change the sink type of pipeline '", name, "'")))
    }

    /// Deletes a pipeline that does not run, and its history.
    pub fn delete(&mut self, name: &str) -> (r: Result<(), AeonError>)
        requires
            old(self).wf(),
        ensures
            final(self).wf(),
            delete_effect(
                old(self),
                final(self),
                name@,
                r,
            ),
    {
        match self.pipelines.get(name) {
            Some(p) => {
                let state = p.state;
                if state == PipelineState::Running || state == PipelineState::Upgrading {
                    return Err(
                        AeonError::config(
                            join3(
                                "cannot delete pipeline in state '",
                                state.as_text(),
                                "' — stop it first",
                            ),
                        ),
                    );
                }
            },
            None => {
                return Err(unknown(name));
            },
        }
        self.pipelines.remove(name);
        self.history.remove(name);
        assert(self.histories() =~= old(self).histories().remove(name@));
        Ok(())
    }

    /// How many pipelines there are.
    pub fn count(&self) -> (r: usize)
        requires
            self.wf(),
        ensures
            r == self.definitions().dom().len(),
    {
        self.pipelines.len()
    }

    /// All pipelines, for a snapshot. Histories are not part of it.
    pub fn snapshot(&self) -> (r: &NameMap<PipelineDefinition>)
        requires
            self.wf(),
        ensures
            r.wf(),
            r@ == self.definitions(),
    {
        &self.pipelines
    }

    /// Takes all pipelines from a snapshot. Histories stay as they are.
    pub fn restore(&mut self, data: NameMap<PipelineDefinition>)
        requires
            old(self).wf(),
            data.wf(),
            forall|k: Seq<char>| #[trigger] data@.contains_key(k) ==> data@[k].wf(),
        ensures
            final(self).wf(),
            final(self).definitions() == data@,
            final(self).histories() == old(self).histories(),
    {
        self.pipelines = data;
    }
}

/// The effect of creating a pipeline.
pub open spec fn created(
    before: &PipelineManager,
    after: &PipelineManager,
    definition: PipelineDefinition,
    r: RegistryResponse,
    now: i64,
) -> bool {
    if before.definitions().contains_key(definition.name@) {
        &&& r is Error
        &&& r->message@ == "pipeline '"@ + definition.name@ + "' already exists"@
        &&& after.unchanged(before)
    } else {
        &&& r is PipelineCreated
        &&& r->PipelineCreated_name@ == definition.name@
        &&& after.definitions() == before.definitions().insert(definition.name@, definition)
        &&& recorded(
            before.histories(),
            after.histories(),
            definition.name@,
            Entry {
                timestamp: now,
                action: PipelineAction::Created,
                actor: "system"@,
                from: PipelineState::Created,
                to: PipelineState::Created,
                details: None,
            },
        )
    }
}

/// The effect of setting a pipeline's state from outside.
pub open spec fn state_set(
    before: &PipelineManager,
    after: &PipelineManager,
    name: Seq<char>,
    state: PipelineState,
    actor: Seq<char>,
    r: RegistryResponse,
    now: i64,
) -> bool {
    if before.definitions().contains_key(name) {
        &&& r is Done
        &&& after.definitions() == before.definitions().insert(
            name,
            in_state(before.definitions()[name], state, now),
        )
        &&& recorded(
            before.histories(),
            after.histories(),
            name,
            Entry {
                timestamp: now,
                action: action_of(state),
                actor,
                from: before.definitions()[name].state,
                to: state,
                details: None,
            },
        )
    } else {
        answers_unknown(r, name) && after.unchanged(before)
    }
}

impl Default for PipelineManager {
    fn default() -> (r: Self)
        ensures
            r.wf(),
            r.definitions() == Definitions::empty(),
            r.histories() == Histories::empty(),
    {
        PipelineManager::new()
    }
}

/// A pipeline whose canary has been moved on at these times, one after the other.
pub open spec fn promoted_at(d: PipelineDefinition, times: Seq<i64>) -> PipelineDefinition
    decreases times.len(),
{
    if times.len() == 0 {
        d
    } else {
        promoted(promoted_at(d, times.drop_last()), times.last())
    }
}

/// A canary stands at the percentage of the step that it has been moved on to, and sets out from
/// the processor that the pipeline had, until it has been moved on once for each of its steps:
/// then it is the pipeline's processor, and the upgrade is over. When it is moved on does not
/// matter, and nothing else of the pipeline changes.
pub proof fn law_canary_walks_its_steps(
    d: PipelineDefinition,
    canary: ProcessorRef,
    steps: Vec<u8>,
    thresholds: CanaryThresholds,
    now: i64,
    times: Seq<i64>,
)
    requires
        times.len() <= steps@.len(),
        0 < steps@.len() <= usize::MAX,
    ensures
        ({
            let p = promoted_at(canary_started(d, canary, steps, thresholds, now), times);
            if times.len() < steps@.len() {
                &&& in_canary(p)
                &&& p.state == PipelineState::Upgrading
                &&& p.processor == d.processor
                &&& p.updated_at == (if times.len() == 0 {
                    now
                } else {
                    times.last()
                })
                &&& canary_of(p).current_step == times.len()
                &&& canary_of(p).traffic_pct == steps@[times.len() as int]
                &&& canary_of(p).steps == steps
                &&& canary_of(p).baseline_processor == d.processor
                &&& canary_of(p).canary_processor == canary
                &&& d == PipelineDefinition {
                    state: d.state,
                    upgrade_state: d.upgrade_state,
                    updated_at: d.updated_at,
                    ..p
                }
            } else {
                p == settled(d, canary, times.last())
            }
        }),
    decreases times.len(),
{
    if times.len() > 0 {
        law_canary_walks_its_steps(d, canary, steps, thresholds, now, times.drop_last());
    }
}

/// Rolling back an upgrade of a running pipeline, at any step of a canary and at any time, gives
/// the pipeline that it was before, but for the time of the change.
pub proof fn law_rollback_restores(
    d: PipelineDefinition,
    processor: ProcessorRef,
    steps: Vec<u8>,
    thresholds: CanaryThresholds,
    now: i64,
    times: Seq<i64>,
    later: i64,
)
    requires
        d.state == PipelineState::Running,
        d.upgrade_state is None,
        times.len() < steps@.len() <= usize::MAX,
    ensures
        ({
            let p = blue_green_started(d, processor, now);
            settled(p, origin(p.upgrade_state->0), later) == PipelineDefinition {
                updated_at: later,
                ..d
            }
        }),
        ({
            let p = promoted_at(canary_started(d, processor, steps, thresholds, now), times);
            settled(p, origin(p.upgrade_state->0), later) == PipelineDefinition {
                updated_at: later,
                ..d
            }
        }),
{
    law_canary_walks_its_steps(d, processor, steps, thresholds, now, times);
}

/// A history only grows: what was recorded stays, and one entry follows it.
pub proof fn law_history_only_grows(before: Histories, after: Histories, name: Seq<char>, x: Entry)
    requires
        recorded(before, after, name, x),
    ensures
        history_of(before, name) == history_of(after, name).drop_last(),
        forall|other: Seq<char>|
            other != name ==> history_of(before, other) == history_of(after, other),
{
    assert(history_of(after, name).drop_last() =~= history_of(before, name));
}

/// Deleting a pipeline undoes its creation.
pub proof fn law_delete_undoes_create(
    before: &PipelineManager,
    between: &PipelineManager,
    definition: PipelineDefinition,
    r: RegistryResponse,
    now: i64,
)
    requires
        created(before, between, definition, r, now),
        !before.definitions().contains_key(definition.name@),
        !before.histories().contains_key(definition.name@),
    ensures
        between.definitions().remove(definition.name@) == before.definitions(),
        between.histories().remove(definition.name@) == before.histories(),
{
    assert(between.definitions().remove(definition.name@) =~= before.definitions());
    assert(between.histories().remove(definition.name@) =~= before.histories());
}

/// A request that is refused changes nothing, neither a pipeline nor a history.
pub proof fn law_refused_requests_change_nothing(
    before: &PipelineManager,
    after: &PipelineManager,
    name: Seq<char>,
    actor: Seq<char>,
    now: i64,
    processor: ProcessorRef,
    steps: Vec<u8>,
    thresholds: CanaryThresholds,
    source: SourceConfig,
    sink: SinkConfig,
    r: Result<(), AeonError>,
)
    requires
        r is Err,
        ({
            ||| start_effect(before, after, name, actor, now, r)
            ||| stop_effect(before, after, name, actor, now, r)
            ||| upgrade_effect(before, after, name, processor, actor, now, r)
            ||| blue_green_effect(before, after, name, processor, actor, now, r)
            ||| cutover_effect(before, after, name, actor, now, r)
            ||| rollback_effect(before, after, name, actor, now, r)
            ||| canary_effect(before, after, name, processor, steps, thresholds, actor, now, r)
            ||| promote_effect(before, after, name, actor, now, r)
            ||| reconfigure_source_effect(before, after, name, source, now, r)
            ||| reconfigure_sink_effect(before, after, name, sink, now, r)
            ||| delete_effect(before, after, name, r)
        }),
    ensures
        after.unchanged(before),
{
}

/// What is recorded is one entry more at the end of the pipeline's history, which says when, what,
/// by whom, from which state to which, and the details. Other histories stay.
pub proof fn law_an_entry_says_what_happened(
    before: Histories,
    after: Histories,
    name: Seq<char>,
    x: Entry,
    other: Seq<char>,
)
    requires
        recorded(before, after, name, x),
    ensures
        after.contains_key(name),
        before.contains_key(name) ==> after[name].drop_last() == before[name],
        !before.contains_key(name) ==> after[name].len() == 1,
        ({
            let e = after[name].last();
            &&& e.timestamp == x.timestamp
            &&& e.action == x.action
            &&& e.actor@ == x.actor
            &&& e.from_state == x.from
            &&& e.to_state == x.to
            &&& e.details is Some <==> x.details is Some
            &&& e.details matches Some(d) ==> d@ == x.details->0
        }),
        other != name ==> (after.contains_key(other) <==> before.contains_key(other)),
        other != name && before.contains_key(other) ==> after[other] == before[other],
{
    let e = after[name].last();
    assert(after[name] == history_of(before, name).push(e));
    assert(after[name].drop_last() =~= history_of(before, name));
}

/// A pipeline without a history has an empty one.
pub proof fn law_a_history_may_be_empty(h: Histories, name: Seq<char>)
    ensures
        h.contains_key(name) ==> history_of(h, name) == h[name],
        !h.contains_key(name) ==> history_of(h, name).len() == 0,
{
}

/// A pipeline that was created or stopped is started; one that runs goes on running. Nothing else
/// is started, and nothing else of the pipeline or of any other changes.
pub proof fn law_what_starting_does(
    before: &PipelineManager,
    after: &PipelineManager,
    name: Seq<char>,
    actor: Seq<char>,
    now: i64,
    r: Result<(), AeonError>,
    other: Seq<char>,
)
    requires
        start_effect(before, after, name, actor, now, r),
    ensures
        ({
            let known = before.definitions().contains_key(name);
            let d = before.definitions()[name];
            let p = after.definitions()[name];
            let due = d.state == PipelineState::Created || d.state == PipelineState::Stopped;
            &&& r is Ok <==> known && (due || d.state == PipelineState::Running)
            &&& after.definitions().contains_key(other) <==> before.definitions().contains_key(other)
            &&& other != name && before.definitions().contains_key(other)
                ==> after.definitions()[other] == before.definitions()[other]
            &&& known && due ==> {
                &&& p.state == PipelineState::Running
                &&& p.updated_at == now
                &&& d == PipelineDefinition { state: d.state, updated_at: d.updated_at, ..p }
                &&& recorded(
                    before.histories(),
                    after.histories(),
                    name,
                    Entry {
                        timestamp: now,
                        action: PipelineAction::Started,
                        actor,
                        from: d.state,
                        to: PipelineState::Running,
                        details: None,
                    },
                )
            }
            &&& !(known && due) ==> after.histories() == before.histories() && after.definitions()
                == before.definitions()
            &&& !known ==> r->Err_0 is NotFound
            &&& known && r is Err ==> r->Err_0 is Config && r->Err_0.text()
                == "cannot start pipeline in state '"@ + d.state.text() + "'"@
        }),
{
}

/// A pipeline that runs or is being upgraded is stopped; one that does not run is left as it is;
/// one that failed cannot be stopped.
pub proof fn law_what_stopping_does(
    before: &PipelineManager,
    after: &PipelineManager,
    name: Seq<char>,
    actor: Seq<char>,
    now: i64,
    r: Result<(), AeonError>,
    other: Seq<char>,
)
    requires
        stop_effect(before, after, name, actor, now, r),
    ensures
        ({
            let known = before.definitions().contains_key(name);
            let d = before.definitions()[name];
            let p = after.definitions()[name];
            let due = d.state == PipelineState::Running || d.state == PipelineState::Upgrading;
            &&& r is Ok <==> known && d.state != PipelineState::Failed
            &&& after.definitions().contains_key(other) <==> before.definitions().contains_key(other)
            &&& other != name && before.definitions().contains_key(other)
                ==> after.definitions()[other] == before.definitions()[other]
            &&& known && due ==> {
                &&& p.state == PipelineState::Stopped
                &&& p.updated_at == now
                &&& d == PipelineDefinition { state: d.state, updated_at: d.updated_at, ..p }
                &&& recorded(
                    before.histories(),
                    after.histories(),
                    name,
                    Entry {
                        timestamp: now,
                        action: PipelineAction::Stopped,
                        actor,
                        from: d.state,
                        to: PipelineState::Stopped,
                        details: None,
                    },
                )
            }
            &&& !(known && due) ==> after.histories() == before.histories() && after.definitions()
                == before.definitions()
            &&& !known ==> r->Err_0 is NotFound
            &&& known && r is Err ==> r->Err_0 is Config && r->Err_0.text()
                == "cannot stop pipeline in state '"@ + d.state.text() + "'"@
        }),
{
}

/// A running pipeline is moved to another processor and to nothing else; its history says that the
/// upgrade began and that it was completed.
pub proof fn law_what_an_upgrade_does(
    before: &PipelineManager,
    after: &PipelineManager,
    name: Seq<char>,
    processor: ProcessorRef,
    actor: Seq<char>,
    now: i64,
    r: Result<(), AeonError>,
    other: Seq<char>,
)
    requires
        upgrade_effect(before, after, name, processor, actor, now, r),
    ensures
        ({
            let known = before.definitions().contains_key(name);
            let d = before.definitions()[name];
            let p = after.definitions()[name];
            let old_history = history_of(before.histories(), name);
            let history = history_of(after.histories(), name);
            &&& r is Ok <==> known && d.state == PipelineState::Running
            &&& after.definitions().contains_key(other) <==> before.definitions().contains_key(other)
            &&& other != name && before.definitions().contains_key(other)
                ==> after.definitions()[other] == before.definitions()[other]
            &&& other != name ==> history_of(after.histories(), other) == history_of(
                before.histories(),
                other,
            )
            &&& r is Ok ==> {
                &&& p.processor == processor
                &&& p.updated_at == now
                &&& d == PipelineDefinition {
                    processor: d.processor,
                    updated_at: d.updated_at,
                    ..p
                }
                &&& history.len() == old_history.len() + 2
                &&& history.take(old_history.len() as int) == old_history
                &&& says(
                    history[old_history.len() as int],
                    Entry {
                        timestamp: now,
                        action: PipelineAction::UpgradeStarted,
                        actor,
                        from: PipelineState::Running,
                        to: PipelineState::Upgrading,
                        details: Some(d.processor.text() + " → "@ + processor.text()),
                    },
                )
                &&& says(
                    history.last(),
                    Entry {
                        timestamp: now,
                        action: PipelineAction::UpgradeCompleted,
                        actor,
                        from: PipelineState::Upgrading,
                        to: PipelineState::Running,
                        details: Some(processor.text()),
                    },
                )
            }
            &&& r is Err ==> after.unchanged(before)
            &&& !known ==> r->Err_0 is NotFound
            &&& known && r is Err ==> r->Err_0 is Config && r->Err_0.text()
                == "can only upgrade running pipelines, current state: "@ + d.state.text()
        }),
{
    if r is Ok {
        let d = before.definitions()[name];
        let began = Entry {
            timestamp: now,
            action: PipelineAction::UpgradeStarted,
            actor,
            from: PipelineState::Running,
            to: PipelineState::Upgrading,
            details: Some(d.processor.text() + " → "@ + processor.text()),
        };
        let ended = Entry {
            timestamp: now,
            action: PipelineAction::UpgradeCompleted,
            actor,
            from: PipelineState::Upgrading,
            to: PipelineState::Running,
            details: Some(processor.text()),
        };
        let between = choose|between: Histories| #[trigger]
            recorded(before.histories(), between, name, began) && recorded(
                between,
                after.histories(),
                name,
                ended,
            );
        law_history_only_grows(before.histories(), between, name, began);
        law_history_only_grows(between, after.histories(), name, ended);
        let first = history_of(before.histories(), name);
        let second = history_of(between, name);
        let third = history_of(after.histories(), name);
        assert(second == first.push(between[name].last()));
        assert(third == second.push(after.histories()[name].last()));
        assert(third.take(first.len() as int) =~= first);
    }
}

/// A blue-green upgrade begins on a running pipeline that is in no upgrade. The pipeline keeps its
/// processor as blue, which stays the active one, beside the new green one.
pub proof fn law_what_beginning_blue_green_does(
    before: &PipelineManager,
    after: &PipelineManager,
    name: Seq<char>,
    processor: ProcessorRef,
    actor: Seq<char>,
    now: i64,
    r: Result<(), AeonError>,
    other: Seq<char>,
)
    requires
        blue_green_effect(before, after, name, processor, actor, now, r),
    ensures
        ({
            let known = before.definitions().contains_key(name);
            let d = before.definitions()[name];
            let p = after.definitions()[name];
            &&& r is Ok <==> known && d.state == PipelineState::Running && d.upgrade_state is None
            &&& after.definitions().contains_key(other) <==> before.definitions().contains_key(other)
            &&& other != name && before.definitions().contains_key(other)
                ==> after.definitions()[other] == before.definitions()[other]
            &&& r is Ok ==> {
                &&& p.state == PipelineState::Upgrading
                &&& p.updated_at == now
                &&& p.processor == d.processor
                &&& p.upgrade_state matches Some(UpgradeInfo::BlueGreen(bg)) && {
                    &&& bg.blue_processor == d.processor
                    &&& bg.green_processor == processor
                    &&& bg.active == BlueGreenActive::Blue
                    &&& bg.started_at == now
                }
                &&& d == PipelineDefinition {
                    state: d.state,
                    upgrade_state: d.upgrade_state,
                    updated_at: d.updated_at,
                    ..p
                }
                &&& recorded(
                    before.histories(),
                    after.histories(),
                    name,
                    Entry {
                        timestamp: now,
                        action: PipelineAction::BlueGreenStarted,
                        actor,
                        from: PipelineState::Running,
                        to: PipelineState::Upgrading,
                        details: Some("green: "@ + processor.text()),
                    },
                )
            }
            &&& r is Err ==> after.unchanged(before)
            &&& !known ==> r->Err_0 is NotFound
            &&& known && d.state != PipelineState::Running ==> r->Err_0 is Config
                && r->Err_0.text()
                == "can only start blue-green on running pipelines, current state: "@
                + d.state.text()
            &&& known && d.state == PipelineState::Running && d.upgrade_state is Some
                ==> r->Err_0 is Config && r->Err_0.text() == "pipeline '"@ + name
                + "' already has an upgrade in progress"@
        }),
{
}

/// A cutover ends a blue-green upgrade whose active processor is still blue: green becomes the
/// pipeline's processor, and the pipeline runs.
pub proof fn law_what_a_cutover_does(
    before: &PipelineManager,
    after: &PipelineManager,
    name: Seq<char>,
    actor: Seq<char>,
    now: i64,
    r: Result<(), AeonError>,
    other: Seq<char>,
)
    requires
        cutover_effect(before, after, name, actor, now, r),
    ensures
        ({
            let known = before.definitions().contains_key(name);
            let d = before.definitions()[name];
            let p = after.definitions()[name];
            &&& r is Ok <==> known && (d.upgrade_state matches Some(UpgradeInfo::BlueGreen(bg))
                && bg.active == BlueGreenActive::Blue)
            &&& after.definitions().contains_key(other) <==> before.definitions().contains_key(other)
            &&& other != name && before.definitions().contains_key(other)
                ==> after.definitions()[other] == before.definitions()[other]
            &&& r is Ok ==> {
                let green = d.upgrade_state->0->BlueGreen_0.green_processor;
                &&& p.state == PipelineState::Running
                &&& p.updated_at == now
                &&& p.processor == green
                &&& p.upgrade_state is None
                &&& d == PipelineDefinition {
                    state: d.state,
                    processor: d.processor,
                    upgrade_state: d.upgrade_state,
                    updated_at: d.updated_at,
                    ..p
                }
                &&& recorded(
                    before.histories(),
                    after.histories(),
                    name,
                    Entry {
                        timestamp: now,
                        action: PipelineAction::BlueGreenCutover,
                        actor,
                        from: PipelineState::Upgrading,
                        to: PipelineState::Running,
                        details: Some(green.text()),
                    },
                )
            }
            &&& r is Err ==> after.unchanged(before)
            &&& !known ==> r->Err_0 is NotFound
            &&& known && r is Err ==> r->Err_0 is Config && r->Err_0.text() == (if d.upgrade_state
                matches Some(UpgradeInfo::BlueGreen(_)) {
                "already cut over to green"@
            } else {
                "pipeline '"@ + name + "' is not in a blue-green upgrade"@
            })
        }),
{
}

/// A rollback ends any upgrade that is in progress: the pipeline runs with the processor that it
/// had when the upgrade began.
pub proof fn law_what_a_rollback_does(
    before: &PipelineManager,
    after: &PipelineManager,
    name: Seq<char>,
    actor: Seq<char>,
    now: i64,
    r: Result<(), AeonError>,
    other: Seq<char>,
)
    requires
        rollback_effect(before, after, name, actor, now, r),
    ensures
        ({
            let known = before.definitions().contains_key(name);
            let d = before.definitions()[name];
            let p = after.definitions()[name];
            &&& r is Ok <==> known && d.upgrade_state is Some
            &&& after.definitions().contains_key(other) <==> before.definitions().contains_key(other)
            &&& other != name && before.definitions().contains_key(other)
                ==> after.definitions()[other] == before.definitions()[other]
            &&& r is Ok ==> {
                &&& p.state == PipelineState::Running
                &&& p.updated_at == now
                &&& p.upgrade_state is None
                &&& d.upgrade_state matches Some(UpgradeInfo::BlueGreen(bg)) ==> p.processor
                    == bg.blue_processor
                &&& d.upgrade_state matches Some(UpgradeInfo::Canary(cs)) ==> p.processor
                    == cs.baseline_processor
                &&& d == PipelineDefinition {
                    state: d.state,
                    processor: d.processor,
                    upgrade_state: d.upgrade_state,
                    updated_at: d.updated_at,
                    ..p
                }
                &&& recorded(
                    before.histories(),
                    after.histories(),
                    name,
                    Entry {
                        timestamp: now,
                        action: PipelineAction::UpgradeRolledBack,
                        actor,
                        from: PipelineState::Upgrading,
                        to: PipelineState::Running,
                        details: Some("rolled back to previous processor"@),
                    },
                )
            }
            &&& r is Err ==> after.unchanged(before)
            &&& !known ==> r->Err_0 is NotFound
            &&& known && r is Err ==> r->Err_0 is Config && r->Err_0.text() == "pipeline '"@ + name
                + "' has no upgrade in progress"@
        }),
{
}

/// A canary begins on a running pipeline that is in no upgrade, with at least one step, at the
/// percentage of the first one. The pipeline keeps its processor as the baseline.
pub proof fn law_what_beginning_a_canary_does(
    before: &PipelineManager,
    after: &PipelineManager,
    name: Seq<char>,
    processor: ProcessorRef,
    steps: Vec<u8>,
    thresholds: CanaryThresholds,
    actor: Seq<char>,
    now: i64,
    r: Result<(), AeonError>,
    other: Seq<char>,
)
    requires
        canary_effect(before, after, name, processor, steps, thresholds, actor, now, r),
    ensures
        ({
            let known = before.definitions().contains_key(name);
            let d = before.definitions()[name];
            let p = after.definitions()[name];
            &&& r is Ok <==> known && d.state == PipelineState::Running && d.upgrade_state is None
                && steps@.len() > 0
            &&& after.definitions().contains_key(other) <==> before.definitions().contains_key(other)
            &&& other != name && before.definitions().contains_key(other)
                ==> after.definitions()[other] == before.definitions()[other]
            &&& r is Ok ==> {
                &&& p.state == PipelineState::Upgrading
                &&& p.updated_at == now
                &&& p.processor == d.processor
                &&& p.upgrade_state matches Some(UpgradeInfo::Canary(cs)) && {
                    &&& cs.baseline_processor == d.processor
                    &&& cs.canary_processor == processor
                    &&& cs.steps@ == steps@
                    &&& cs.current_step == 0
                    &&& cs.traffic_pct == steps@[0]
                    &&& cs.thresholds == thresholds
                    &&& cs.started_at == now
                }
                &&& d == PipelineDefinition {
                    state: d.state,
                    upgrade_state: d.upgrade_state,
                    updated_at: d.updated_at,
                    ..p
                }
                &&& recorded(
                    before.histories(),
                    after.histories(),
                    name,
                    Entry {
                        timestamp: now,
                        action: PipelineAction::CanaryStarted,
                        actor,
                        from: PipelineState::Running,
                        to: PipelineState::Upgrading,
                        details: Some(
                            processor.text() + " at "@ + decimal(steps@[0] as nat) + "%"@,
                        ),
                    },
                )
            }
            &&& r is Err ==> after.unchanged(before)
            &&& !known ==> r->Err_0 is NotFound
            &&& known && r is Err ==> r->Err_0 is Config && r->Err_0.text() == (if d.state
                != PipelineState::Running {
                "can only start canary on running pipelines, current state: "@ + d.state.text()
            } else if d.upgrade_state is Some {
                "pipeline '"@ + name + "' already has an upgrade in progress"@
            } else {
                "canary steps must not be empty"@
            })
        }),
{
}

/// A canary that is moved on gets the percentage of its next step; after the last step it becomes
/// the pipeline's processor, and the pipeline runs.
pub proof fn law_what_moving_a_canary_on_does(
    before: &PipelineManager,
    after: &PipelineManager,
    name: Seq<char>,
    actor: Seq<char>,
    now: i64,
    r: Result<(), AeonError>,
    other: Seq<char>,
)
    requires
        promote_effect(before, after, name, actor, now, r),
        before.definitions().contains_key(name) ==> (before.definitions()[name].upgrade_state
            matches Some(UpgradeInfo::Canary(cs)) ==> cs.current_step + 1 <= usize::MAX),
    ensures
        ({
            let known = before.definitions().contains_key(name);
            let d = before.definitions()[name];
            let p = after.definitions()[name];
            &&& r is Ok <==> known && (d.upgrade_state matches Some(UpgradeInfo::Canary(_)))
            &&& after.definitions().contains_key(other) <==> before.definitions().contains_key(other)
            &&& other != name && before.definitions().contains_key(other)
                ==> after.definitions()[other] == before.definitions()[other]
            &&& r is Ok ==> {
                let was = d.upgrade_state->0->Canary_0;
                let next = was.current_step + 1;
                if next < was.steps@.len() {
                    &&& p.state == d.state
                    &&& p.processor == d.processor
                    &&& p.updated_at == now
                    &&& p.upgrade_state matches Some(UpgradeInfo::Canary(cs)) && {
                        &&& cs.current_step == next
                        &&& cs.traffic_pct == was.steps@[next]
                        &&& cs.steps == was.steps
                        &&& cs.baseline_processor == was.baseline_processor
                        &&& cs.canary_processor == was.canary_processor
                        &&& cs.thresholds == was.thresholds
                        &&& cs.started_at == was.started_at
                    }
                    &&& d == PipelineDefinition {
                        upgrade_state: d.upgrade_state,
                        updated_at: d.updated_at,
                        ..p
                    }
                    &&& recorded(
                        before.histories(),
                        after.histories(),
                        name,
                        Entry {
                            timestamp: now,
                            action: PipelineAction::CanaryPromoted,
                            actor,
                            from: PipelineState::Upgrading,
                            to: PipelineState::Upgrading,
                            details: Some(
                                was.canary_processor.text() + " at "@ + decimal(
                                    was.steps@[next] as nat,
                                ) + "%"@,
                            ),
                        },
                    )
                } else {
                    &&& p.state == PipelineState::Running
                    &&& p.processor == was.canary_processor
                    &&& p.updated_at == now
                    &&& p.upgrade_state is None
                    &&& d == PipelineDefinition {
                        state: d.state,
                        processor: d.processor,
                        upgrade_state: d.upgrade_state,
                        updated_at: d.updated_at,
                        ..p
                    }
                    &&& recorded(
                        before.histories(),
                        after.histories(),
                        name,
                        Entry {
                            timestamp: now,
                            action: PipelineAction::CanaryCompleted,
                            actor,
                            from: PipelineState::Upgrading,
                            to: PipelineState::Running,
                            details: Some(
                                was.canary_processor.text() + " at "@ + decimal(100) + "%"@,
                            ),
                        },
                    )
                }
            }
            &&& r is Err ==> after.unchanged(before)
            &&& !known ==> r->Err_0 is NotFound
            &&& known && r is Err ==> r->Err_0 is Config && r->Err_0.text() == "pipeline '"@ + name
                + "' is not in a canary upgrade"@
        }),
{
}

/// The first source of a pipeline is replaced by one of the same type, and nothing else changes,
/// neither of the pipeline nor in any history.
pub proof fn law_what_a_new_source_does(
    before: &PipelineManager,
    after: &PipelineManager,
    name: Seq<char>,
    source: SourceConfig,
    now: i64,
    r: Result<(), AeonError>,
    other: Seq<char>,
    i: int,
)
    requires
        reconfigure_source_effect(before, after, name, source, now, r),
    ensures
        ({
            let known = before.definitions().contains_key(name);
            let d = before.definitions()[name];
            let p = after.definitions()[name];
            &&& r is Ok <==> known && d.sources@.len() > 0 && d.sources@[0].source_type@
                == source.source_type@
            &&& after.definitions().contains_key(other) <==> before.definitions().contains_key(other)
            &&& other != name && before.definitions().contains_key(other)
                ==> after.definitions()[other] == before.definitions()[other]
            &&& after.histories() == before.histories()
            &&& r is Ok ==> {
                &&& p.sources@.len() == d.sources@.len()
                &&& p.sources@[0] == source
                &&& 0 < i < d.sources@.len() ==> p.sources@[i] == d.sources@[i]
                &&& p.updated_at == now
                &&& d == PipelineDefinition { sources: d.sources, updated_at: d.updated_at, ..p }
            }
            &&& r is Err ==> after.definitions() == before.definitions()
            &&& !known ==> r->Err_0 is NotFound
            &&& known && r is Err ==> r->Err_0 is Config && r->Err_0.text()
                == "cannot change the source type of pipeline '"@ + name + "'"@
        }),
{
}

/// The first sink of a pipeline is replaced by one of the same type, and nothing else changes,
/// neither of the pipeline nor in any history.
pub proof fn law_what_a_new_sink_does(
    before: &PipelineManager,
    after: &PipelineManager,
    name: Seq<char>,
    sink: SinkConfig,
    now: i64,
    r: Result<(), AeonError>,
    other: Seq<char>,
    i: int,
)
    requires
        reconfigure_sink_effect(before, after, name, sink, now, r),
    ensures
        ({
            let known = before.definitions().contains_key(name);
            let d = before.definitions()[name];
            let p = after.definitions()[name];
            &&& r is Ok <==> known && d.sinks@.len() > 0 && d.sinks@[0].sink_type@
                == sink.sink_type@
            &&& after.definitions().contains_key(other) <==> before.definitions().contains_key(other)
            &&& other != name && before.definitions().contains_key(other)
                ==> after.definitions()[other] == before.definitions()[other]
            &&& after.histories() == before.histories()
            &&& r is Ok ==> {
                &&& p.sinks@.len() == d.sinks@.len()
                &&& p.sinks@[0] == sink
                &&& 0 < i < d.sinks@.len() ==> p.sinks@[i] == d.sinks@[i]
                &&& p.updated_at == now
                &&& d == PipelineDefinition { sinks: d.sinks, updated_at: d.updated_at, ..p }
            }
            &&& r is Err ==> after.definitions() == before.definitions()
            &&& !known ==> r->Err_0 is NotFound
            &&& known && r is Err ==> r->Err_0 is Config && r->Err_0.text()
                == "cannot change the sink type of pipeline '"@ + name + "'"@
        }),
{
}

/// A pipeline that neither runs nor is being upgraded is deleted with its history, and no other
/// with it.
pub proof fn law_what_deleting_does(
    before: &PipelineManager,
    after: &PipelineManager,
    name: Seq<char>,
    r: Result<(), AeonError>,
    other: Seq<char>,
)
    requires
        delete_effect(before, after, name, r),
    ensures
        ({
            let known = before.definitions().contains_key(name);
            let d = before.definitions()[name];
            &&& r is Ok <==> known && (d.state == PipelineState::Created || d.state
                == PipelineState::Stopped || d.state == PipelineState::Failed)
            &&& other != name ==> (after.definitions().contains_key(other)
                <==> before.definitions().contains_key(other))
            &&& other != name && before.definitions().contains_key(other)
                ==> after.definitions()[other] == before.definitions()[other]
            &&& other != name ==> (after.histories().contains_key(other)
                <==> before.histories().contains_key(other))
            &&& other != name && before.histories().contains_key(other)
                ==> after.histories()[other] == before.histories()[other]
            &&& r is Ok ==> !after.definitions().contains_key(name)
                && !after.histories().contains_key(name)
            &&& r is Err ==> after.unchanged(before)
            &&& !known ==> r->Err_0 is NotFound
            &&& known && r is Err ==> r->Err_0 is Config && r->Err_0.text()
                == "cannot delete pipeline in state '"@ + d.state.text() + "' — stop it first"@
        }),
{
}

/// A pipeline whose name is free is created as it is defined, and its history begins; no other
/// changes. A name that is taken is refused.
pub proof fn law_what_creating_does(
    before: &PipelineManager,
    after: &PipelineManager,
    definition: PipelineDefinition,
    now: i64,
    r: Result<RegistryResponse, AeonError>,
    other: Seq<char>,
)
    requires
        create_effect(before, after, definition, now, r),
    ensures
        ({
            let name = definition.name@;
            let taken = before.definitions().contains_key(name);
            &&& r is Ok <==> !taken
            &&& other != name ==> (after.definitions().contains_key(other)
                <==> before.definitions().contains_key(other))
            &&& other != name && before.definitions().contains_key(other)
                ==> after.definitions()[other] == before.definitions()[other]
            &&& !taken ==> {
                &&& after.definitions().contains_key(name)
                &&& after.definitions()[name] == definition
                &&& r->Ok_0 is PipelineCreated
                &&& r->Ok_0->PipelineCreated_name@ == name
                &&& recorded(
                    before.histories(),
                    after.histories(),
                    name,
                    Entry {
                        timestamp: now,
                        action: PipelineAction::Created,
                        actor: "system"@,
                        from: PipelineState::Created,
                        to: PipelineState::Created,
                        details: None,
                    },
                )
            }
            &&& taken ==> {
                &&& after.unchanged(before)
                &&& r->Err_0 is Config
                &&& r->Err_0.text() == "pipeline '"@ + name + "' already exists"@
            }
        }),
{
}

/// A replicated change that creates a pipeline does so where the name is free, and answers with an
/// error where it is taken.
pub proof fn law_what_a_replicated_creation_does(
    before: &PipelineManager,
    after: &PipelineManager,
    definition: PipelineDefinition,
    r: RegistryResponse,
    now: i64,
)
    requires
        created(before, after, definition, r, now),
    ensures
        ({
            let name = definition.name@;
            &&& r is PipelineCreated <==> !before.definitions().contains_key(name)
            &&& r is PipelineCreated ==> r->PipelineCreated_name@ == name && after.definitions()
                == before.definitions().insert(name, definition)
            &&& r !is PipelineCreated ==> r is Error && r->message@ == "pipeline '"@ + name
                + "' already exists"@ && after.unchanged(before)
        }),
{
}

/// A state that is set from outside is set, whatever it was, and the history says what that amounts
/// to; nothing else of the pipeline or of any other changes.
pub proof fn law_what_setting_a_state_does(
    before: &PipelineManager,
    after: &PipelineManager,
    name: Seq<char>,
    state: PipelineState,
    actor: Seq<char>,
    r: RegistryResponse,
    now: i64,
    other: Seq<char>,
)
    requires
        state_set(before, after, name, state, actor, r, now),
    ensures
        ({
            let known = before.definitions().contains_key(name);
            let d = before.definitions()[name];
            let p = after.definitions()[name];
            &&& r is Done <==> known
            &&& after.definitions().contains_key(other) <==> before.definitions().contains_key(other)
            &&& other != name && before.definitions().contains_key(other)
                ==> after.definitions()[other] == before.definitions()[other]
            &&& known ==> {
                let e = after.histories()[name].last();
                &&& p.state == state
                &&& p.updated_at == now
                &&& d == PipelineDefinition { state: d.state, updated_at: d.updated_at, ..p }
                &&& after.histories()[name].drop_last() == history_of(before.histories(), name)
                &&& e.timestamp == now
                &&& e.actor@ == actor
                &&& e.from_state == d.state
                &&& e.to_state == state
                &&& e.details is None
                &&& e.action == PipelineAction::Started <==> state == PipelineState::Running
                &&& e.action == PipelineAction::Stopped <==> state == PipelineState::Stopped
                &&& e.action == PipelineAction::Failed <==> state == PipelineState::Failed
                &&& e.action == PipelineAction::UpgradeStarted <==> state
                    == PipelineState::Upgrading
                &&& e.action == PipelineAction::Created <==> state == PipelineState::Created
            }
            &&& !known ==> {
                &&& after.unchanged(before)
                &&& r is Error
                &&& r->message@ == "pipeline '"@ + name + "' not found"@
            }
        }),
{
    if before.definitions().contains_key(name) {
        let e = after.histories()[name].last();
        assert(after.histories()[name] == history_of(before.histories(), name).push(e));
        assert(after.histories()[name].drop_last() =~= history_of(before.histories(), name));
    }
}

/// Where nothing has changed, each pipeline and each history is what it was.
pub proof fn law_nothing_changes_unseen(before: &PipelineManager, after: &PipelineManager)
    requires
        after.unchanged(before),
    ensures
        after.definitions() == before.definitions(),
        after.histories() == before.histories(),
{
}

/// The refusal of an unknown pipeline names it.
pub proof fn law_an_unknown_pipeline_is_named(e: AeonError, name: Seq<char>)
    requires
        is_unknown(e, name),
    ensures
        e is NotFound,
        e.text().len() == name.len() + 11,
        e.text().subrange(10, 10 + name.len() as int) == name,
{
    reveal_strlit("pipeline '");
    reveal_strlit("'");
    assert(e.text().subrange(10, 10 + name.len() as int) =~= name);
}

} // verus!
