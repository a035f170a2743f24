//! Pipelines as they are declared, and processors as they are registered.
use vstd::prelude::*;

use crate::name_map::NameMap;
use crate::retention_probe::RetentionBlock;
use crate::text::join3;
use crate::types::{CheckpointBackend, DurabilityMode};

verus! {

/// Where a pipeline reads from. Without partitions, the source's own default applies.
#[derive(Debug, Clone)]
pub struct SourceConfig {
    pub source_type: String,
    pub topic: Option<String>,
    pub partitions: Vec<u16>,
    pub config: Vec<(String, String)>,
}

/// Where a pipeline writes to.
#[derive(Debug, Clone)]
pub struct SinkConfig {
    pub sink_type: String,
    pub topic: Option<String>,
    pub config: Vec<(String, String)>,
}

/// A processor version that a pipeline runs.
#[derive(Debug, Clone)]
pub struct ProcessorRef {
    pub name: String,
    pub version: String,
    pub tier: Option<String>,
}

impl ProcessorRef {
    /// The reference as text.
    pub open spec fn text(self) -> Seq<char> {
        self.name@ + ":"@ + self.version@
    }

    pub fn new(name: String, version: String) -> (r: Self)
        ensures
            r == (ProcessorRef { name, version, tier: None }),
    {
        ProcessorRef { name, version, tier: None }
    }

    pub fn to_text(&self) -> (r: String)
        ensures
            r@ == self.text(),
    {
        join3(self.name.as_str(), ":", self.version.as_str())
    }

    /// A second reference to the same version.
    pub fn copy(&self) -> (r: Self)
        ensures
            r == *self,
    {
        ProcessorRef {
            name: self.name.clone(),
            version: self.version.clone(),
            tier: match &self.tier {
                Some(t) => Some(t.clone()),
                None => None,
            },
        }
    }
}

/// The declared state of a pipeline.
#[derive(Debug, Clone, Copy, PartialEq, Eq, Structural)]
pub enum PipelineState {
    Created,
    Running,
    Stopped,
    Upgrading,
    Failed,
}

impl PipelineState {
    /// The state as text.
    pub open spec fn text(self) -> Seq<char> {
        match self {
            PipelineState::Created => "created"@,
            PipelineState::Running => "running"@,
            PipelineState::Stopped => "stopped"@,
            PipelineState::Upgrading => "upgrading"@,
            PipelineState::Failed => "failed"@,
        }
    }

    pub fn as_text(&self) -> (r: &'static str)
        ensures
            r@ == self.text(),
    {
        match self {
            PipelineState::Created => "created",
            PipelineState::Running => "running",
            PipelineState::Stopped => "stopped",
            PipelineState::Upgrading => "upgrading",
            PipelineState::Failed => "failed",
        }
    }
}

/// The side of a blue-green upgrade that gets the traffic.
#[derive(Debug, Clone, Copy, PartialEq, Eq, Structural)]
pub enum BlueGreenActive {
    Blue,
    Green,
}

/// A blue-green upgrade in progress.
#[derive(Debug, Clone)]
pub struct BlueGreenState {
    pub blue_processor: ProcessorRef,
    pub green_processor: ProcessorRef,
    pub active: BlueGreenActive,
    pub started_at: i64,
}

/// The limits under which a canary may be promoted, by name.
#[derive(Debug, Clone)]
pub struct CanaryThresholds {
    pub limits: Vec<(String, String)>,
}

impl Default for CanaryThresholds {
    fn default() -> (r: Self)
        ensures
            r.limits@.len() == 0,
    {
        CanaryThresholds { limits: Vec::new() }
    }
}

/// A canary upgrade in progress.
#[derive(Debug, Clone)]
pub struct CanaryState {
    pub baseline_processor: ProcessorRef,
    pub canary_processor: ProcessorRef,
    pub traffic_pct: u8,
    pub steps: Vec<u8>,
    pub current_step: usize,
    pub thresholds: CanaryThresholds,
    pub started_at: i64,
}

/// An upgrade in progress.
#[derive(Debug, Clone)]
pub enum UpgradeInfo {
    BlueGreen(BlueGreenState),
    Canary(CanaryState),
}

/// How checkpoints are declared.
#[derive(Debug, Clone)]
pub struct CheckpointBlock {
    pub backend: CheckpointBackend,
    pub interval: Option<String>,
}

/// How durability is declared.
#[derive(Debug, Clone)]
pub struct DurabilityBlock {
    pub mode: DurabilityMode,
    pub checkpoint: CheckpointBlock,
    pub retention: RetentionBlock,
}

/// How proof of history is declared.
#[derive(Debug, Clone)]
pub struct PohBlock {
    pub enabled: bool,
    pub max_recent_entries: u32,
    pub signing_key_ref: Option<String>,
}

impl PohBlock {
    pub fn is_active(&self) -> (r: bool)
        ensures
            r == self.enabled,
    {
        self.enabled
    }
}

/// A pipeline as it is declared.
#[derive(Debug, Clone)]
pub struct PipelineDefinition {
    pub name: String,
    pub sources: Vec<SourceConfig>,
    pub processor: ProcessorRef,
    pub sinks: Vec<SinkConfig>,
    pub state: PipelineState,
    pub created_at: i64,
    pub updated_at: i64,
    pub upgrade_state: Option<UpgradeInfo>,
    pub durability: DurabilityBlock,
    pub poh: PohBlock,
}

impl PipelineDefinition {
    /// A canary's step can be counted on from.
    pub open spec fn wf(&self) -> bool {
        match self.upgrade_state {
            Some(UpgradeInfo::Canary(cs)) => cs.current_step < usize::MAX,
            _ => true,
        }
    }

    /// A new pipeline with one source and one sink, nothing durable and no proof of history.
    pub fn new(
        name: String,
        source: SourceConfig,
        processor: ProcessorRef,
        sink: SinkConfig,
        now: i64,
    ) -> (r: Self)
        ensures
            r.wf(),
            r.name == name,
            r.sources@ == seq![source],
            r.processor == processor,
            r.sinks@ == seq![sink],
            r.state == PipelineState::Created,
            r.created_at == now,
            r.updated_at == now,
            r.upgrade_state is None,
            r.durability.mode == DurabilityMode::Off,
            r.durability.checkpoint.backend == CheckpointBackend::StateStore,
            r.durability.checkpoint.interval is None,
            r.durability.retention.l2_body.hold_after_ack is None,
            r.durability.retention.l3_ack.max_records is None,
            !r.poh.enabled,
            r.poh.signing_key_ref is None,
    {
        let mut sources: Vec<SourceConfig> = Vec::new();
        sources.push(source);
        let mut sinks: Vec<SinkConfig> = Vec::new();
        sinks.push(sink);
        assert(sources@ =~= seq![source]);
        assert(sinks@ =~= seq![sink]);
        PipelineDefinition {
            name,
            sources,
            processor,
            sinks,
            state: PipelineState::Created,
            created_at: now,
            updated_at: now,
            upgrade_state: None,
            durability: DurabilityBlock {
                mode: DurabilityMode::Off,
                checkpoint: CheckpointBlock {
                    backend: CheckpointBackend::StateStore,
                    interval: None,
                },
                retention: RetentionBlock::default(),
            },
            poh: PohBlock { enabled: false, max_recent_entries: 1024, signing_key_ref: None },
        }
    }
}

/// What happened to a pipeline.
#[derive(Debug, Clone, Copy, PartialEq, Eq, Structural)]
pub enum PipelineAction {
    Created,
    Started,
    Stopped,
    Failed,
    UpgradeStarted,
    UpgradeCompleted,
    UpgradeRolledBack,
    BlueGreenStarted,
    BlueGreenCutover,
    CanaryStarted,
    CanaryPromoted,
    CanaryCompleted,
}

/// One entry of a pipeline's history.
#[derive(Debug)]
pub struct PipelineHistoryEntry {
    pub timestamp: i64,
    pub action: PipelineAction,
    pub actor: String,
    pub from_state: PipelineState,
    pub to_state: PipelineState,
    pub details: Option<String>,
}

/// How a processor runs.
#[derive(Debug, Clone, Copy, PartialEq, Eq, Structural)]
pub enum ProcessorType {
    Wasm,
    NativeSo,
    WebTransport,
    WebSocket,
}

impl ProcessorType {
    /// The type as text.
    pub open spec fn text(self) -> Seq<char> {
        match self {
            ProcessorType::Wasm => "wasm"@,
            ProcessorType::NativeSo => "native-so"@,
            ProcessorType::WebTransport => "web-transport"@,
            ProcessorType::WebSocket => "web-socket"@,
        }
    }

    pub fn as_text(&self) -> (r: &'static str)
        ensures
            r@ == self.text(),
    {
        match self {
            ProcessorType::Wasm => "wasm",
            ProcessorType::NativeSo => "native-so",
            ProcessorType::WebTransport => "web-transport",
            ProcessorType::WebSocket => "web-socket",
        }
    }
}

/// Whether a processor version may be used.
#[derive(Debug, Clone, Copy, PartialEq, Eq, Structural)]
pub enum VersionStatus {
    Available,
    Active,
    Archived,
}

/// One version of a processor.
#[derive(Debug, Clone)]
pub struct ProcessorVersion {
    pub version: String,
    pub sha512: String,
    pub size_bytes: u64,
    pub processor_type: ProcessorType,
    pub platform: String,
    pub status: VersionStatus,
    pub registered_at: i64,
    pub registered_by: String,
    pub endpoint: Option<String>,
    pub max_batch_size: Option<u32>,
}

/// A processor and its versions.
#[derive(Debug, Clone)]
pub struct ProcessorRecord {
    pub name: String,
    pub description: String,
    pub versions: NameMap<ProcessorVersion>,
    pub created_at: i64,
    pub updated_at: i64,
}

impl ProcessorRecord {
    pub open spec fn wf(&self) -> bool {
        self.versions.wf()
    }

    pub fn new(name: String, description: String, now: i64) -> (r: Self)
        ensures
            r.wf(),
            r.name == name,
            r.description == description,
            r.versions@ == Map::<Seq<char>, ProcessorVersion>::empty(),
            r.created_at == now,
            r.updated_at == now,
    {
        ProcessorRecord {
            name,
            description,
            versions: NameMap::new(),
            created_at: now,
            updated_at: now,
        }
    }

    pub fn get_version(&self, version: &str) -> (r: Option<&ProcessorVersion>)
        requires
            self.wf(),
        ensures
            match r {
                Some(v) => self.versions@.contains_key(version@) && *v
                    == self.versions@[version@],
                None => !self.versions@.contains_key(version@),
            },
    {
        self.versions.get(version)
    }

    /// The version whose name is last in order.
    pub fn latest_version(&self) -> (r: Option<&ProcessorVersion>)
        requires
            self.wf(),
        ensures
            match r {
                Some(v) => {
                    let names = self.versions.names_in_order();
                    names.len() > 0 && self.versions@.contains_key(names.last()) && *v
                        == self.versions@[names.last()]
                },
                None => self.versions@ == Map::<Seq<char>, ProcessorVersion>::empty(),
            },
    {
        let n = self.versions.len();
        if n == 0 {
            proof {
                self.versions.lemma_names();
                assert(self.versions@.dom() =~= Set::<Seq<char>>::empty());
                assert(self.versions@ =~= Map::<Seq<char>, ProcessorVersion>::empty());
            }
            return None;
        }
        Some(self.versions.at(n - 1).1)
    }
}

/// A change of the registry or of a pipeline, as it is replicated.
#[derive(Debug)]
pub enum RegistryCommand {
    RegisterProcessor { name: String, description: String, version: ProcessorVersion },
    DeleteVersion { name: String, version: String },
    SetVersionStatus { name: String, version: String, status: VersionStatus },
    CreatePipeline { definition: Box<PipelineDefinition> },
    SetPipelineState { name: String, state: PipelineState },
    UpgradePipeline { name: String, new_processor: ProcessorRef },
    DeletePipeline { name: String },
}

/// The answer to a change.
#[derive(Debug)]
pub enum RegistryResponse {
    Done,
    ProcessorRegistered { name: String, version: String },
    PipelineCreated { name: String },
    Error { message: String },
}

/// Each state and each type has its own name, and no two share one.
pub proof fn law_states_and_types_are_told_apart(
    a: PipelineState,
    b: PipelineState,
    s: ProcessorType,
    t: ProcessorType,
)
    ensures
        a.text() == b.text() ==> a == b,
        s.text() == t.text() ==> s == t,
        (PipelineState::Created).text() == "created"@,
        (PipelineState::Running).text() == "running"@,
        (PipelineState::Stopped).text() == "stopped"@,
        (PipelineState::Upgrading).text() == "upgrading"@,
        (PipelineState::Failed).text() == "failed"@,
        (ProcessorType::Wasm).text() == "wasm"@,
        (ProcessorType::NativeSo).text() == "native-so"@,
        (ProcessorType::WebTransport).text() == "web-transport"@,
        (ProcessorType::WebSocket).text() == "web-socket"@,
{
    reveal_strlit("created");
    reveal_strlit("running");
    reveal_strlit("stopped");
    reveal_strlit("upgrading");
    reveal_strlit("failed");
    reveal_strlit("wasm");
    reveal_strlit("native-so");
    reveal_strlit("web-transport");
    reveal_strlit("web-socket");
    assert("created"@[0] == 'c' && "running"@[0] == 'r' && "stopped"@[0] == 's');
    assert("upgrading"@[0] == 'u' && "failed"@[0] == 'f');
    assert("wasm"@.len() == 4 && "native-so"@.len() == 9);
    assert("web-transport"@.len() == 13 && "web-socket"@.len() == 10);
}

/// A processor is named by its name, a colon and its version.
pub proof fn law_a_processor_is_named_with_its_version(p: ProcessorRef)
    ensures
        p.text().len() == p.name@.len() + 1 + p.version@.len(),
        p.text().take(p.name@.len() as int) == p.name@,
        p.text()[p.name@.len() as int] == ':',
        p.text().skip(p.name@.len() as int + 1) == p.version@,
{
    reveal_strlit(":");
    assert(p.text().take(p.name@.len() as int) =~= p.name@);
    assert(p.text().skip(p.name@.len() as int + 1) =~= p.version@);
}

} // verus!
