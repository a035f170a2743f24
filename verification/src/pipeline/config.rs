//! How a pipeline is set up, and what the sink stage is set up with.
use vstd::prelude::*;

use crate::error::AeonError;
use crate::pipeline::source_task::{end_error, TaskEnd};
use crate::retention_probe::RetentionPlan;
use crate::text::{decimal, law_a_number_is_read_back, push_u64};
use crate::time::Duration;
use crate::types::{
    BatchFailurePolicy, CheckpointBackend, DeliverySemantics, DeliveryStrategy, DurabilityMode,
};
use vstd::string::StringExecFns;

verus! {

/// The cores that the three stages run on.
#[derive(Debug, Clone, Copy, PartialEq, Eq, Structural)]
pub struct PipelineCores {
    pub source: usize,
    pub processor: usize,
    pub sink: usize,
}

/// Whether stages are bound to cores.
#[derive(Debug, Clone, Copy, PartialEq, Eq, Structural)]
pub enum CorePinning {
    /// The scheduler decides.
    Disabled,
    /// The runtime's own assignment, where the machine has enough cores for one.
    Auto,
    /// These cores.
    Manual(PipelineCores),
}

impl CorePinning {
    /// The cores of the stages. `assignment` is the runtime's own, absent on a machine with too
    /// few cores.
    pub fn resolve(&self, assignment: Option<PipelineCores>) -> (r: Option<PipelineCores>)
        ensures
            r == (match *self {
                CorePinning::Disabled => None,
                CorePinning::Auto => assignment,
                CorePinning::Manual(cores) => Some(cores),
            }),
    {
        match self {
            CorePinning::Disabled => None,
            CorePinning::Auto => assignment,
            CorePinning::Manual(cores) => Some(*cores),
        }
    }
}

/// Proof of history of a pipeline. The key, where there is one, signs the roots.
#[derive(Debug, Clone)]
pub struct PohConfig {
    pub partition: u16,
    pub max_recent_entries: usize,
    pub signing_key: Option<Vec<u8>>,
}

impl Default for PohConfig {
    fn default() -> (r: Self)
        ensures
            r.partition == 0,
            r.max_recent_entries == 1024,
            r.signing_key is None,
    {
        PohConfig { partition: 0, max_recent_entries: 1024, signing_key: None }
    }
}

/// When a sink is flushed.
#[derive(Debug, Clone, Copy, PartialEq, Eq, Structural)]
pub struct FlushConfig {
    pub interval: Duration,
    pub max_pending: usize,
    pub adaptive: bool,
    pub adaptive_min_divisor: u32,
    pub adaptive_max_multiplier: u32,
}

/// Where checkpoints are kept, and for how long.
#[derive(Debug, Clone)]
pub struct CheckpointConfig {
    pub backend: CheckpointBackend,
    pub dir: Option<String>,
    pub retention: Duration,
}

/// How outputs are delivered.
#[derive(Debug, Clone)]
pub struct DeliveryConfig {
    pub strategy: DeliveryStrategy,
    pub semantics: DeliverySemantics,
    pub failure_policy: BatchFailurePolicy,
    pub max_retries: u32,
    pub retry_backoff: Duration,
    pub durability: DurabilityMode,
    pub flush: FlushConfig,
    pub checkpoint: CheckpointConfig,
}

impl Default for DeliveryConfig {
    fn default() -> (r: Self)
        ensures
            r.strategy == DeliveryStrategy::OrderedBatch,
            r.semantics == DeliverySemantics::AtLeastOnce,
            r.failure_policy == BatchFailurePolicy::RetryFailed,
            r.max_retries == 3,
            r.retry_backoff.total_nanos() == 100_000_000,
            r.durability == DurabilityMode::Off,
            r.flush.interval == (Duration { secs: 1, nanos: 0 }),
            r.flush.max_pending == 50_000,
            !r.flush.adaptive,
            r.flush.adaptive_min_divisor == 10,
            r.flush.adaptive_max_multiplier == 5,
            r.checkpoint.backend == CheckpointBackend::Wal,
            r.checkpoint.dir is None,
            r.checkpoint.retention == (Duration { secs: 86_400, nanos: 0 }),
    {
        DeliveryConfig {
            strategy: DeliveryStrategy::OrderedBatch,
            semantics: DeliverySemantics::AtLeastOnce,
            failure_policy: BatchFailurePolicy::RetryFailed,
            max_retries: 3,
            retry_backoff: Duration::from_millis(100),
            durability: DurabilityMode::Off,
            flush: FlushConfig {
                interval: Duration::from_secs(1),
                max_pending: 50_000,
                adaptive: false,
                adaptive_min_divisor: 10,
                adaptive_max_multiplier: 5,
            },
            checkpoint: CheckpointConfig {
                backend: CheckpointBackend::Wal,
                dir: None,
                retention: Duration::from_secs(86_400),
            },
        }
    }
}

/// How a pipeline is set up. Handles that the runtime attaches are noted as present or absent.
#[derive(Debug, Clone)]
pub struct PipelineConfig {
    pub source_buffer_capacity: usize,
    pub sink_buffer_capacity: usize,
    pub max_batch_size: usize,
    pub core_pinning: CorePinning,
    pub delivery: DeliveryConfig,
    pub poh: Option<PohConfig>,
    pub pipeline_name: String,
    pub sink_name: String,
    pub partition_id: u16,
    pub retention_plan: Option<RetentionPlan>,
    /// Whether bodies are kept in body stores, and from where their registry is rooted.
    pub l2_root: Option<String>,
    pub has_l3_checkpoint_store: bool,
    pub has_eo2_metrics: bool,
    pub has_eo2_capacity: bool,
    /// Whether the watermarks are shared with the pipeline's other sinks.
    pub shares_ack_tracker: bool,
    pub has_write_gate: bool,
    pub has_partition_reassign: bool,
    /// Whether what is kept at rest is encrypted.
    pub encrypts_at_rest: bool,
    /// Whether chains that were handed over to this node are resumed.
    pub has_poh_installed_chains: bool,
    /// Whether the chain can be handed over to another node.
    pub has_poh_live_chains: bool,
}

impl Default for PipelineConfig {
    fn default() -> (r: Self)
        ensures
            r.source_buffer_capacity == 8192,
            r.sink_buffer_capacity == 8192,
            r.max_batch_size == 1024,
            r.core_pinning == CorePinning::Disabled,
            r.delivery.strategy == DeliveryStrategy::OrderedBatch,
            r.delivery.semantics == DeliverySemantics::AtLeastOnce,
            r.delivery.failure_policy == BatchFailurePolicy::RetryFailed,
            r.delivery.max_retries == 3,
            r.delivery.retry_backoff.total_nanos() == 100_000_000,
            r.delivery.durability == DurabilityMode::Off,
            r.delivery.flush == (FlushConfig {
                interval: Duration { secs: 1, nanos: 0 },
                max_pending: 50_000,
                adaptive: false,
                adaptive_min_divisor: 10,
                adaptive_max_multiplier: 5,
            }),
            r.delivery.checkpoint.backend == CheckpointBackend::Wal,
            r.delivery.checkpoint.dir is None,
            r.delivery.checkpoint.retention == (Duration { secs: 86_400, nanos: 0 }),
            r.poh is None,
            r.pipeline_name@.len() == 0,
            r.sink_name@ == "sink"@,
            r.partition_id == 0,
            r.retention_plan is None,
            r.l2_root is None,
            !r.has_l3_checkpoint_store,
            !r.has_eo2_metrics,
            !r.has_eo2_capacity,
            !r.shares_ack_tracker,
            !r.has_write_gate,
            !r.has_partition_reassign,
            !r.encrypts_at_rest,
            !r.has_poh_installed_chains,
            !r.has_poh_live_chains,
    {
        PipelineConfig {
            source_buffer_capacity: 8192,
            sink_buffer_capacity: 8192,
            max_batch_size: 1024,
            core_pinning: CorePinning::Disabled,
            delivery: DeliveryConfig::default(),
            poh: None,
            pipeline_name: String::new(),
            sink_name: "sink".to_owned(),
            partition_id: 0,
            retention_plan: None,
            l2_root: None,
            has_l3_checkpoint_store: false,
            has_eo2_metrics: false,
            has_eo2_capacity: false,
            shares_ack_tracker: false,
            has_write_gate: false,
            has_partition_reassign: false,
            encrypts_at_rest: false,
            has_poh_installed_chains: false,
            has_poh_live_chains: false,
        }
    }
}

/// Which store for checkpoints to open.
#[derive(Debug, Clone, Copy, PartialEq, Eq, Structural)]
pub enum CheckpointPlan {
    /// None.
    Nothing,
    /// A write-ahead log.
    Wal,
    /// The node's store, with at most this many records; with a write-ahead log to fall back to
    /// where durability is asked for.
    StateStore { max_records: Option<u32>, fallback: bool },
}

/// Which watermarks a sink stage works with.
#[derive(Debug, Clone, Copy, PartialEq, Eq, Structural)]
pub enum TrackerChoice {
    /// None.
    Untouched,
    /// Its own.
    Own,
    /// Those that it shares with the pipeline's other sinks.
    Shared,
}

/// What a sink stage is set up with.
#[derive(Debug, Clone)]
pub struct SinkTaskCtx {
    pub core: Option<usize>,
    pub delivery_strategy: DeliveryStrategy,
    pub flush: FlushConfig,
    pub failure_policy: BatchFailurePolicy,
    pub max_retries: u32,
    pub retry_backoff: Duration,
    pub checkpoint: CheckpointPlan,
    pub ack_tracker: TrackerChoice,
    pub sink_name: String,
    pub pipeline_name: String,
    pub has_l2_registry: bool,
    pub has_metrics: bool,
    pub has_capacity: bool,
}

/// The store for checkpoints that a pipeline is set up with. The node's store is used only where
/// the node has one.
pub open spec fn checkpoint_plan(config: PipelineConfig) -> CheckpointPlan {
    match config.delivery.checkpoint.backend {
        CheckpointBackend::Wal => CheckpointPlan::Wal,
        CheckpointBackend::StateStore => if config.has_l3_checkpoint_store {
            CheckpointPlan::StateStore {
                max_records: (match config.retention_plan {
                    Some(plan) => plan.l3_max_records,
                    None => None,
                }),
                fallback: config.delivery.durability != DurabilityMode::Off,
            }
        } else {
            CheckpointPlan::Nothing
        },
        CheckpointBackend::Off => CheckpointPlan::Nothing,
    }
}

/// Derives the set-up of the sink stage from that of the pipeline. Watermarks are kept wherever
/// durability is asked for.
pub fn build_sink_task_ctx(config: &PipelineConfig, core: Option<usize>) -> (r: SinkTaskCtx)
    ensures
        r.core == core,
        r.delivery_strategy == config.delivery.strategy,
        r.flush == config.delivery.flush,
        r.failure_policy == config.delivery.failure_policy,
        r.max_retries == config.delivery.max_retries,
        r.retry_backoff == config.delivery.retry_backoff,
        r.checkpoint == checkpoint_plan(*config),
        r.ack_tracker == (if config.delivery.durability == DurabilityMode::Off {
            TrackerChoice::Untouched
        } else if config.shares_ack_tracker {
            TrackerChoice::Shared
        } else {
            TrackerChoice::Own
        }),
        r.sink_name == config.sink_name,
        r.pipeline_name == config.pipeline_name,
        r.has_l2_registry == (config.l2_root is Some),
        r.has_metrics == config.has_eo2_metrics,
        r.has_capacity == config.has_eo2_capacity,
{
    let durable = config.delivery.durability != DurabilityMode::Off;
    let checkpoint = match config.delivery.checkpoint.backend {
        CheckpointBackend::Wal => CheckpointPlan::Wal,
        CheckpointBackend::StateStore => if config.has_l3_checkpoint_store {
            let max_records: Option<u32> = match &config.retention_plan {
                Some(plan) => plan.l3_max_records,
                None => None,
            };
            CheckpointPlan::StateStore { max_records, fallback: durable }
        } else {
            CheckpointPlan::Nothing
        },
        CheckpointBackend::Off => CheckpointPlan::Nothing,
    };
    let ack_tracker = if !durable {
        TrackerChoice::Untouched
    } else if config.shares_ack_tracker {
        TrackerChoice::Shared
    } else {
        TrackerChoice::Own
    };
    SinkTaskCtx {
        core,
        delivery_strategy: config.delivery.strategy,
        flush: config.delivery.flush,
        failure_policy: config.delivery.failure_policy,
        max_retries: config.delivery.max_retries,
        retry_backoff: config.delivery.retry_backoff,
        checkpoint,
        ack_tracker,
        sink_name: config.sink_name.clone(),
        pipeline_name: config.pipeline_name.clone(),
        has_l2_registry: config.l2_root.is_some(),
        has_metrics: config.has_eo2_metrics,
        has_capacity: config.has_eo2_capacity,
    }
}

/// A pipeline that runs once for each partition.
#[derive(Debug, Clone)]
pub struct MultiPartitionConfig {
    pub partition_count: usize,
    pub pipeline: PipelineConfig,
    /// Whether partitions can be frozen one by one.
    pub has_gate_registry: bool,
}

/// What the pipeline of one partition is set up with, beyond what all share. None follows
/// changes of the node's partitions, since each is bound to its own.
#[derive(Debug, Clone, Copy, PartialEq, Eq, Structural)]
pub struct PartitionSetup {
    pub partition_id: u16,
    pub core_pinning: CorePinning,
    pub has_write_gate: bool,
    pub has_partition_reassign: bool,
}

/// The number of the `i`-th partition, as far as partitions can be numbered.
pub open spec fn partition_number(i: int) -> u16 {
    if i <= u16::MAX {
        i as u16
    } else {
        u16::MAX
    }
}

/// The set-up of each partition of a pipeline, in order. `assignments` are the runtime's own
/// cores for each partition, absent on a machine with too few; they are used only where the
/// pipeline leaves the choice of cores to the runtime.
pub fn partition_setups(
    config: &MultiPartitionConfig,
    assignments: Option<&Vec<PipelineCores>>,
) -> (r: Vec<PartitionSetup>)
    requires
        assignments is Some ==> assignments->0@.len() >= config.partition_count,
    ensures
        r@.len() == config.partition_count,
        forall|i: int|
            0 <= i < r@.len() ==> #[trigger] r@[i] == (PartitionSetup {
                partition_id: partition_number(i),
                core_pinning: (if config.pipeline.core_pinning == CorePinning::Auto
                    && assignments is Some {
                    CorePinning::Manual(assignments->0@[i])
                } else {
                    CorePinning::Disabled
                }),
                has_write_gate: config.has_gate_registry,
                has_partition_reassign: false,
            }),
{
    let auto = config.pipeline.core_pinning == CorePinning::Auto;
    let mut out: Vec<PartitionSetup> = Vec::new();
    let mut i: usize = 0;
    while i < config.partition_count
        invariant
            i <= config.partition_count,
            assignments is Some ==> assignments->0@.len() >= config.partition_count,
            auto == (config.pipeline.core_pinning == CorePinning::Auto),
            out@.len() == i,
            forall|j: int|
                0 <= j < i ==> #[trigger] out@[j] == (PartitionSetup {
                    partition_id: partition_number(j),
                    core_pinning: (if auto && assignments is Some {
                        CorePinning::Manual(assignments->0@[j])
                    } else {
                        CorePinning::Disabled
                    }),
                    has_write_gate: config.has_gate_registry,
                    has_partition_reassign: false,
                }),
        decreases config.partition_count - i,
    {
        let partition_id: u16 = if i <= u16::MAX as usize {
            i as u16
        } else {
            u16::MAX
        };
        let core_pinning = match assignments {
            Some(a) => if auto {
                CorePinning::Manual(a[i])
            } else {
                CorePinning::Disabled
            },
            None => CorePinning::Disabled,
        };
        out.push(
            PartitionSetup {
                partition_id,
                core_pinning,
                has_write_gate: config.has_gate_registry,
                has_partition_reassign: false,
            },
        );
        i += 1;
    }
    out
}

/// What is said in front of a panic of the pipeline of the `i`-th partition.
pub open spec fn partition_panic(i: int) -> Seq<char> {
    "partition "@ + decimal(i as nat) + " pipeline panicked: "@
}

/// The result of a pipeline whose partitions have all ended: the error of the first partition
/// that has one.
pub fn join_partitions(ends: Vec<TaskEnd>) -> (r: Result<(), AeonError>)
    ensures
        match r {
            Ok(_) => forall|i: int| 0 <= i < ends@.len() ==> #[trigger] ends@[i] is Finished,
            Err(e) => exists|i: int|
                #![trigger ends@[i]]
                0 <= i < ends@.len() && ends@[i] !is Finished && end_error(
                    partition_panic(i),
                    ends@[i],
                    e,
                ) && (forall|j: int| 0 <= j < i ==> #[trigger] ends@[j] is Finished),
        },
{
    let ghost all = ends@;
    let count: usize = ends.len();
    let mut i: u64 = 0;
    for end in it: ends.into_iter()
        invariant
            it.seq() == all,
            i == it.index(),
            all.len() == count,
            forall|j: int| 0 <= j < it.index() ==> #[trigger] all[j] is Finished,
    {
        match end {
            TaskEnd::Finished => {},
            TaskEnd::Failed(e) => {
                assert(all[i as int] !is Finished);
                return Err(e);
            },
            TaskEnd::Panicked(text) => {
                let mut message = "partition ".to_owned();
                push_u64(&mut message, i);
                message.append(" pipeline panicked: ");
                message.append(text.as_str());
                assert(all[i as int] !is Finished);
                return Err(AeonError::processor(message));
            },
        }
        i += 1;
    }
    Ok(())
}

/// A write-ahead log is opened where one is asked for; the node's store where it is asked for and
/// the node has one, with the number of records that the retention plan allows and something to
/// fall back to exactly where durability is asked for; otherwise nothing is opened.
pub proof fn law_which_store_keeps_checkpoints(config: PipelineConfig)
    ensures
        ({
            let backend = config.delivery.checkpoint.backend;
            let plan = checkpoint_plan(config);
            &&& plan is Wal <==> backend == CheckpointBackend::Wal
            &&& plan is StateStore <==> backend == CheckpointBackend::StateStore
                && config.has_l3_checkpoint_store
            &&& plan is Nothing <==> backend == CheckpointBackend::Off || backend
                == CheckpointBackend::StateStore && !config.has_l3_checkpoint_store
            &&& plan matches CheckpointPlan::StateStore { max_records, fallback } ==> {
                &&& fallback <==> config.delivery.durability != DurabilityMode::Off
                &&& config.retention_plan is None ==> max_records is None
                &&& config.retention_plan matches Some(kept) ==> max_records
                    == kept.l3_max_records
            }
        }),
{
}

/// Partitions are numbered from zero, one after the other, as far as numbers go.
pub proof fn law_partitions_are_numbered_in_order(i: int, j: int)
    requires
        0 <= i,
        0 <= j,
    ensures
        i <= u16::MAX ==> partition_number(i) == i,
        i > u16::MAX ==> partition_number(i) == u16::MAX,
        i <= u16::MAX && j <= u16::MAX && i != j ==> partition_number(i) != partition_number(j),
{
}

/// What is said of a partition's panic tells which partition it was.
pub proof fn law_a_panic_names_its_partition(i: nat, j: nat)
    requires
        partition_panic(i as int) == partition_panic(j as int),
    ensures
        i == j,
{
    let head = "partition "@;
    let tail = " pipeline panicked: "@;
    let a = partition_panic(i as int);
    let b = partition_panic(j as int);
    assert(a.subrange(head.len() as int, a.len() - tail.len()) =~= decimal(i));
    assert(b.subrange(head.len() as int, b.len() - tail.len()) =~= decimal(j));
    law_a_number_is_read_back(i);
    law_a_number_is_read_back(j);
}

} // verus!
