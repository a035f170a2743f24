use aeon_engine::partition_install::{create_poh_state, ChainStart, InstalledPohChainRegistry};
use aeon_engine::pipeline::config::{
    build_sink_task_ctx, join_partitions, partition_setups, CheckpointPlan, CorePinning,
    MultiPartitionConfig, PipelineConfig, PipelineCores, PohConfig, TrackerChoice,
};
use aeon_engine::pipeline::recovery::AckSeqTracker;
use aeon_engine::pipeline::source_task::TaskEnd;
use aeon_engine::retention_probe::RetentionPlan;
use aeon_engine::time::Duration;
use aeon_engine::types::{
    CheckpointBackend, DeliverySemantics, DeliveryStrategy, DurabilityMode,
};
use aeon_engine::error::AeonError;

fn cores(source: usize, processor: usize, sink: usize) -> PipelineCores {
    PipelineCores { source, processor, sink }
}

#[test]
fn core_pinning_disabled_resolves_to_none() {
    assert!(CorePinning::Disabled.resolve(None).is_none());
    assert!(CorePinning::Disabled.resolve(Some(cores(0, 1, 2))).is_none());
}

#[test]
fn core_pinning_manual_resolves_to_given_cores() {
    let given = PipelineCores {
        source: 1,
        processor: 2,
        sink: 3,
    };
    let resolved = CorePinning::Manual(given).resolve(None);
    assert!(resolved.is_some());
    let r = resolved.unwrap();
    assert_eq!(r.source, 1);
    assert_eq!(r.processor, 2);
    assert_eq!(r.sink, 3);
}

#[test]
fn automatic_pinning_takes_what_the_machine_offers() {
    assert!(CorePinning::Auto.resolve(None).is_none());
    let r = CorePinning::Auto.resolve(Some(cores(4, 5, 6))).unwrap();
    assert_eq!((r.source, r.processor, r.sink), (4, 5, 6));
}

#[test]
fn core_pinning_default_is_disabled() {
    let config = PipelineConfig::default();
    assert!(matches!(config.core_pinning, CorePinning::Disabled));
}

#[test]
fn pipeline_config_default_delivery() {
    let config = PipelineConfig::default();
    assert_eq!(config.delivery.strategy, DeliveryStrategy::OrderedBatch);
    assert_eq!(config.delivery.semantics, DeliverySemantics::AtLeastOnce);
    assert_eq!(config.delivery.flush.interval, Duration::from_secs(1));
    assert_eq!(config.delivery.flush.max_pending, 50_000);
    assert_eq!(config.source_buffer_capacity, 8192);
    assert_eq!(config.sink_buffer_capacity, 8192);
    assert_eq!(config.max_batch_size, 1024);
}

#[test]
fn shared_ack_tracker_threaded_through_build_sink_task_ctx() {
    let mut cfg_fast = PipelineConfig::default();
    cfg_fast.pipeline_name = "multi-sink".into();
    cfg_fast.sink_name = "fast".into();
    cfg_fast.delivery.durability = DurabilityMode::OrderedBatch;
    cfg_fast.shares_ack_tracker = true;

    let mut cfg_slow = PipelineConfig::default();
    cfg_slow.pipeline_name = "multi-sink".into();
    cfg_slow.sink_name = "slow".into();
    cfg_slow.delivery.durability = DurabilityMode::OrderedBatch;
    cfg_slow.shares_ack_tracker = true;

    // Both sinks use the one tracker that they share.
    let ctx_fast = build_sink_task_ctx(&cfg_fast, None);
    let ctx_slow = build_sink_task_ctx(&cfg_slow, None);
    assert_eq!(ctx_fast.ack_tracker, TrackerChoice::Shared);
    assert_eq!(ctx_slow.ack_tracker, TrackerChoice::Shared);

    let mut shared = AckSeqTracker::new();
    shared.register_sink(&ctx_fast.sink_name);
    shared.register_sink(&ctx_slow.sink_name);

    // Fast sink acks 100; slow sink lags at 20.
    shared.record_ack("fast", 100);
    shared.record_ack("slow", 20);

    let snap = shared.snapshot();
    assert_eq!(snap.get("fast").copied(), Some(100));
    assert_eq!(snap.get("slow").copied(), Some(20));

    // GC frontier must be the slow sink's watermark.
    assert_eq!(shared.min_across_sinks(), Some(20));

    // Advancing slow to 50 advances the frontier to 50.
    shared.record_ack("slow", 50);
    assert_eq!(shared.min_across_sinks(), Some(50));
}

#[test]
fn default_shared_ack_tracker_is_none_single_sink_isolated() {
    let mut cfg_a = PipelineConfig::default();
    cfg_a.sink_name = "a".into();
    cfg_a.delivery.durability = DurabilityMode::OrderedBatch;

    let mut cfg_b = PipelineConfig::default();
    cfg_b.sink_name = "b".into();
    cfg_b.delivery.durability = DurabilityMode::OrderedBatch;

    assert_eq!(build_sink_task_ctx(&cfg_a, None).ack_tracker, TrackerChoice::Own);
    assert_eq!(build_sink_task_ctx(&cfg_b, None).ack_tracker, TrackerChoice::Own);

    let mut tracker_a = AckSeqTracker::new();
    let tracker_b = AckSeqTracker::new();

    tracker_a.register_sink("a");
    tracker_a.record_ack("a", 99);

    // Tracker B is isolated — must not see A's ack.
    assert_eq!(tracker_b.snapshot().get("a"), None);
}

#[test]
fn without_durability_nothing_is_followed() {
    let config = PipelineConfig::default();
    let ctx = build_sink_task_ctx(&config, Some(3));
    assert_eq!(ctx.ack_tracker, TrackerChoice::Untouched);
    assert_eq!(ctx.core, Some(3));
    assert_eq!(ctx.pipeline_name, config.pipeline_name);
}

#[test]
fn checkpoints_go_to_the_state_store_where_there_is_one() {
    let mut config = PipelineConfig::default();
    config.delivery.durability = DurabilityMode::OrderedBatch;
    config.delivery.checkpoint.backend = CheckpointBackend::StateStore;
    config.has_l3_checkpoint_store = true;
    config.retention_plan = Some(RetentionPlan {
        l2_hold_after_ack: Duration::zero(),
        l3_max_records: Some(7),
    });
    match build_sink_task_ctx(&config, None).checkpoint {
        CheckpointPlan::StateStore { max_records, .. } => assert_eq!(max_records, Some(7)),
        _ => panic!("the state store is there"),
    }
    config.delivery.checkpoint.backend = CheckpointBackend::Off;
    assert!(matches!(build_sink_task_ctx(&config, None).checkpoint, CheckpointPlan::Nothing));
    config.delivery.checkpoint.backend = CheckpointBackend::Wal;
    config.delivery.checkpoint.dir = Some("/ckpt".to_string());
    assert!(matches!(build_sink_task_ctx(&config, None).checkpoint, CheckpointPlan::Wal));
}

fn many(partition_count: usize, core_pinning: CorePinning) -> MultiPartitionConfig {
    MultiPartitionConfig {
        partition_count,
        pipeline: PipelineConfig { core_pinning, ..PipelineConfig::default() },
        has_gate_registry: false,
    }
}

#[test]
fn multi_partition_zero_partitions() {
    let setups = partition_setups(&many(0, CorePinning::Disabled), None);
    assert!(setups.is_empty());
    assert!(join_partitions(Vec::new()).is_ok());
}

#[test]
fn partitions_get_the_cores_that_are_offered() {
    let offered = vec![cores(0, 1, 2), cores(3, 4, 5)];
    let config = MultiPartitionConfig { has_gate_registry: true, ..many(2, CorePinning::Auto) };
    let setups = partition_setups(&config, Some(&offered));
    assert_eq!(setups.len(), 2);
    assert!(matches!(setups[1].core_pinning, CorePinning::Manual(c) if c.sink == 5));
    assert_eq!((setups[0].partition_id, setups[1].partition_id), (0, 1));
    assert!(setups[0].has_write_gate);
    // Without enough cores nothing is pinned.
    let unpinned = partition_setups(&many(2, CorePinning::Auto), None);
    assert!(matches!(unpinned[0].core_pinning, CorePinning::Disabled));
    assert!(!unpinned[0].has_write_gate);
}

#[test]
fn the_first_partition_that_fails_is_reported() {
    let ends = vec![
        TaskEnd::Finished,
        TaskEnd::Panicked("boom".to_string()),
        TaskEnd::Failed(AeonError::state("late".to_string())),
    ];
    assert_eq!(
        join_partitions(ends).unwrap_err().message(),
        "partition 1 pipeline panicked: boom"
    );
}

#[test]
fn a_chain_starts_where_the_transferred_one_ended() {
    let config = PipelineConfig {
        poh: Some(PohConfig { partition: 4, max_recent_entries: 16, signing_key: None }),
        ..PipelineConfig::default()
    };
    let mut installed: InstalledPohChainRegistry<u8> = InstalledPohChainRegistry::new();
    assert!(matches!(
        create_poh_state(&config, Some(&mut installed)),
        Some(ChainStart::Genesis { partition: 4, max_recent_entries: 16 })
    ));
    assert!(create_poh_state::<u8>(&PipelineConfig::default(), None).is_none());
}
