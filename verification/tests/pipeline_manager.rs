use aeon_engine::definition::{
    CanaryThresholds, PipelineAction, PipelineDefinition, PipelineState, ProcessorRef,
    RegistryCommand, RegistryResponse, SinkConfig, SourceConfig,
};
use aeon_engine::pipeline_manager::PipelineManager;

const NOW: i64 = 2000;

fn make_pipeline(name: &str) -> PipelineDefinition {
    PipelineDefinition::new(
        name.to_string(),
        SourceConfig {
            source_type: "kafka".into(),
            topic: Some("input".into()),
            partitions: vec![0, 1],
            config: Vec::new(),
        },
        proc_ref("1.0.0"),
        SinkConfig {
            sink_type: "kafka".into(),
            topic: Some("output".into()),
            config: Vec::new(),
        },
        1000,
    )
}

fn proc_ref(version: &str) -> ProcessorRef {
    ProcessorRef::new("proc".to_string(), version.to_string())
}

fn running(name: &str) -> PipelineManager {
    let mut mgr = PipelineManager::new();
    mgr.create(make_pipeline(name), NOW).unwrap();
    mgr.start(name, "test", NOW).unwrap();
    mgr
}

#[test]
fn create_and_list() {
    let mut mgr = PipelineManager::new();

    mgr.create(make_pipeline("pipe-1"), NOW).unwrap();
    mgr.create(make_pipeline("pipe-2"), NOW).unwrap();

    let list = mgr.list();
    assert_eq!(list.len(), 2);
    assert!(list.contains(&"pipe-1".to_string()));
    assert!(list.contains(&"pipe-2".to_string()));
}

#[test]
fn create_duplicate_fails() {
    let mut mgr = PipelineManager::new();
    mgr.create(make_pipeline("dup"), NOW).unwrap();

    let result = mgr.create(make_pipeline("dup"), NOW);
    assert!(result.is_err());
    assert_eq!(result.unwrap_err().message(), "pipeline 'dup' already exists");
}

#[test]
fn start_stop_lifecycle() {
    let mut mgr = PipelineManager::new();
    mgr.create(make_pipeline("lc"), NOW).unwrap();

    // Created → Running
    mgr.start("lc", "test", NOW).unwrap();
    assert_eq!(mgr.get("lc").unwrap().state, PipelineState::Running);

    // Running → Stopped
    mgr.stop("lc", "test", NOW).unwrap();
    assert_eq!(mgr.get("lc").unwrap().state, PipelineState::Stopped);

    // Stopped → Running
    mgr.start("lc", "test", NOW).unwrap();
    assert_eq!(mgr.get("lc").unwrap().state, PipelineState::Running);
}

#[test]
fn upgrade_pipeline() {
    let mut mgr = running("upg");

    mgr.upgrade("upg", proc_ref("2.0.0"), "test", NOW).unwrap();

    let pipeline = mgr.get("upg").unwrap();
    assert_eq!(pipeline.processor.version, "2.0.0");
    assert_eq!(pipeline.state, PipelineState::Running);
}

#[test]
fn upgrade_stopped_fails() {
    let mut mgr = PipelineManager::new();
    mgr.create(make_pipeline("upg-fail"), NOW).unwrap();

    let result = mgr.upgrade("upg-fail", proc_ref("2.0.0"), "test", NOW);
    assert!(result.is_err());
    assert_eq!(
        result.unwrap_err().message(),
        "can only upgrade running pipelines, current state: created"
    );
}

#[test]
fn delete_stopped_pipeline() {
    let mut mgr = PipelineManager::new();
    mgr.create(make_pipeline("del"), NOW).unwrap();

    mgr.delete("del").unwrap();
    assert_eq!(mgr.count(), 0);
}

#[test]
fn delete_running_fails() {
    let mut mgr = running("del-run");

    let result = mgr.delete("del-run");
    assert!(result.is_err());
    assert_eq!(mgr.count(), 1);
}

#[test]
fn history_tracking() {
    let mut mgr = PipelineManager::new();
    mgr.create(make_pipeline("hist"), NOW).unwrap();
    mgr.start("hist", "admin", NOW).unwrap();
    mgr.stop("hist", "admin", NOW).unwrap();

    let history = mgr.history("hist");
    assert_eq!(history.len(), 3); // created + started + stopped
    assert_eq!(history[0].actor, "system"); // created
    assert_eq!(history[1].actor, "admin"); // started
    assert_eq!(history[2].actor, "admin"); // stopped
}

#[test]
fn pipeline_manager_snapshot_and_restore() {
    let mgr = running("snap-1");

    let snapshot = mgr.snapshot().clone();

    let mut mgr2 = PipelineManager::new();
    mgr2.restore(snapshot);
    assert_eq!(mgr2.count(), 1);

    let p = mgr2.get("snap-1").unwrap();
    assert_eq!(p.state, PipelineState::Running);
}

#[test]
fn list_with_state() {
    let mut mgr = PipelineManager::new();
    mgr.create(make_pipeline("s1"), NOW).unwrap();
    mgr.create(make_pipeline("s2"), NOW).unwrap();
    mgr.start("s1", "test", NOW).unwrap();

    let states = mgr.list_with_state();
    assert_eq!(states.len(), 2);

    let s1 = states.iter().find(|(n, _)| n == "s1").unwrap();
    let s2 = states.iter().find(|(n, _)| n == "s2").unwrap();
    assert_eq!(s1.1, PipelineState::Running);
    assert_eq!(s2.1, PipelineState::Created);
}

#[test]
fn blue_green_lifecycle() {
    let mut mgr = running("bg");

    mgr.upgrade_blue_green("bg", proc_ref("2.0.0"), "test", NOW).unwrap();

    // Should be in Upgrading state with blue-green info
    let p = mgr.get("bg").unwrap();
    assert_eq!(p.state, PipelineState::Upgrading);
    assert!(p.upgrade_state.is_some());

    // Cutover to green
    mgr.cutover("bg", "test", NOW).unwrap();

    let p = mgr.get("bg").unwrap();
    assert_eq!(p.state, PipelineState::Running);
    assert_eq!(p.processor.version, "2.0.0");
    assert!(p.upgrade_state.is_none());
}

#[test]
fn blue_green_rollback() {
    let mut mgr = running("bg-rb");
    mgr.upgrade_blue_green("bg-rb", proc_ref("2.0.0"), "test", NOW).unwrap();

    // Rollback instead of cutover
    mgr.rollback_upgrade("bg-rb", "test", NOW).unwrap();

    let p = mgr.get("bg-rb").unwrap();
    assert_eq!(p.state, PipelineState::Running);
    assert_eq!(p.processor.version, "1.0.0"); // Back to original
    assert!(p.upgrade_state.is_none());
}

#[test]
fn blue_green_on_stopped_fails() {
    let mut mgr = PipelineManager::new();
    mgr.create(make_pipeline("bg-stop"), NOW).unwrap();

    let result = mgr.upgrade_blue_green("bg-stop", proc_ref("2.0.0"), "test", NOW);
    assert!(result.is_err());
}

#[test]
fn double_upgrade_fails() {
    let mut mgr = running("bg-dbl");
    mgr.upgrade_blue_green("bg-dbl", proc_ref("2.0.0"), "test", NOW).unwrap();

    // Second upgrade while first is in progress should fail
    let result = mgr.upgrade_blue_green("bg-dbl", proc_ref("3.0.0"), "test", NOW);
    assert!(result.is_err());
}

#[test]
fn blue_green_history() {
    let mut mgr = running("bg-hist");
    mgr.upgrade_blue_green("bg-hist", proc_ref("2.0.0"), "test", NOW).unwrap();
    mgr.cutover("bg-hist", "test", NOW).unwrap();

    let history = mgr.history("bg-hist");
    // created + started + blue-green-started + cutover
    assert_eq!(history.len(), 4);
}

#[test]
fn canary_lifecycle() {
    let mut mgr = running("can");
    mgr.upgrade_canary(
        "can",
        proc_ref("2.0.0"),
        vec![10, 50, 100],
        CanaryThresholds::default(),
        "test",
        NOW,
    )
    .unwrap();

    // Should be at 10%
    let cs = mgr.canary_status("can").unwrap();
    assert_eq!(cs.traffic_pct, 10);
    assert_eq!(cs.current_step, 0);

    // Promote to 50%
    mgr.promote_canary("can", "test", NOW).unwrap();
    let cs = mgr.canary_status("can").unwrap();
    assert_eq!(cs.traffic_pct, 50);
    assert_eq!(cs.current_step, 1);

    // Promote to 100%
    mgr.promote_canary("can", "test", NOW).unwrap();
    let cs = mgr.canary_status("can").unwrap();
    assert_eq!(cs.traffic_pct, 100);
    assert_eq!(cs.current_step, 2);

    // Promote again → completes the canary
    mgr.promote_canary("can", "test", NOW).unwrap();
    assert!(mgr.canary_status("can").is_none());

    let p = mgr.get("can").unwrap();
    assert_eq!(p.state, PipelineState::Running);
    assert_eq!(p.processor.version, "2.0.0");
}

#[test]
fn when_a_canary_moves_on_does_not_matter() {
    let mut mgr = running("can-at");
    let before = mgr.get("can-at").unwrap().processor.version.clone();
    mgr.upgrade_canary(
        "can-at",
        proc_ref("2.0.0"),
        vec![10, 50, 100],
        CanaryThresholds::default(),
        "test",
        NOW + 5,
    )
    .unwrap();
    for (time, pct) in [(NOW + 900, 50), (NOW - 30, 100)] {
        mgr.promote_canary("can-at", "test", time).unwrap();
        let p = mgr.get("can-at").unwrap();
        assert_eq!((p.updated_at, p.state), (time, PipelineState::Upgrading));
        assert_eq!(p.processor.version, before);
        assert_eq!(mgr.canary_status("can-at").unwrap().traffic_pct, pct);
    }
    mgr.rollback_upgrade("can-at", "test", NOW + 7).unwrap();
    let p = mgr.get("can-at").unwrap();
    assert_eq!((p.updated_at, p.state), (NOW + 7, PipelineState::Running));
    assert_eq!(p.processor.version, before);
}

#[test]
fn canary_rollback() {
    let mut mgr = running("can-rb");
    mgr.upgrade_canary(
        "can-rb",
        proc_ref("2.0.0"),
        vec![10, 50, 100],
        CanaryThresholds::default(),
        "test",
        NOW,
    )
    .unwrap();

    mgr.promote_canary("can-rb", "test", NOW).unwrap(); // 50%

    // Rollback at 50%
    mgr.rollback_upgrade("can-rb", "test", NOW).unwrap();

    let p = mgr.get("can-rb").unwrap();
    assert_eq!(p.state, PipelineState::Running);
    assert_eq!(p.processor.version, "1.0.0");
    assert!(p.upgrade_state.is_none());
}

#[test]
fn canary_empty_steps_fails() {
    let mut mgr = running("can-empty");
    let result = mgr.upgrade_canary(
        "can-empty",
        proc_ref("2.0.0"),
        vec![],
        CanaryThresholds::default(),
        "test",
        NOW,
    );
    assert!(result.is_err());
}

#[test]
fn canary_history() {
    let mut mgr = running("can-hist");
    mgr.upgrade_canary(
        "can-hist",
        proc_ref("2.0.0"),
        vec![10, 100],
        CanaryThresholds::default(),
        "test",
        NOW,
    )
    .unwrap();
    mgr.promote_canary("can-hist", "test", NOW).unwrap(); // 100%
    mgr.promote_canary("can-hist", "test", NOW).unwrap(); // complete

    let history = mgr.history("can-hist");
    // created + started + canary-started + promoted(100%) + completed
    assert_eq!(history.len(), 5);
    assert_eq!(history[4].action, PipelineAction::CanaryCompleted);
    assert_eq!(history[4].details.as_deref(), Some("proc:2.0.0 at 100%"));
}

#[test]
fn refusals_name_the_reason_and_change_nothing() {
    let mut mgr = running("p");
    let before = mgr.history("p").len();
    assert_eq!(mgr.cutover("p", "t", NOW).unwrap_err().message(),
        "pipeline 'p' is not in a blue-green upgrade");
    assert_eq!(mgr.promote_canary("p", "t", NOW).unwrap_err().message(),
        "pipeline 'p' is not in a canary upgrade");
    assert_eq!(mgr.rollback_upgrade("p", "t", NOW).unwrap_err().message(),
        "pipeline 'p' has no upgrade in progress");
    assert_eq!(mgr.delete("p").unwrap_err().message(),
        "cannot delete pipeline in state 'running' — stop it first");
    assert_eq!(mgr.start("ghost", "t", NOW).unwrap_err().message(), "pipeline 'ghost'");
    assert_eq!(mgr.history("p").len(), before);
    assert_eq!(mgr.get("p").unwrap().state, PipelineState::Running);
    assert!(mgr.history("ghost").is_empty());
}

#[test]
fn create_and_delete_leave_nothing_behind() {
    let mut mgr = PipelineManager::new();
    mgr.create(make_pipeline("x"), NOW).unwrap();
    mgr.delete("x").unwrap();
    assert_eq!(mgr.count(), 0);
    assert!(mgr.history("x").is_empty());
    assert!(mgr.get("x").is_none());
}

#[test]
fn replicated_commands_are_applied() {
    let mut mgr = PipelineManager::new();
    let create = RegistryCommand::CreatePipeline { definition: Box::new(make_pipeline("r")) };
    assert!(matches!(mgr.apply(create, NOW), RegistryResponse::PipelineCreated { .. }));
    let run = RegistryCommand::SetPipelineState {
        name: "r".to_string(),
        state: PipelineState::Running,
    };
    assert!(!matches!(mgr.apply(run, NOW), RegistryResponse::Error { .. }));
    assert_eq!(mgr.get("r").unwrap().state, PipelineState::Running);
    let gone = RegistryCommand::DeletePipeline { name: "nope".to_string() };
    match mgr.apply(gone, NOW) {
        RegistryResponse::Error { message } => assert_eq!(message, "pipeline 'nope' not found"),
        _ => panic!("no such pipeline"),
    }
}

#[test]
fn sources_and_sinks_change_within_their_type() {
    let mut mgr = running("rc");
    let source = SourceConfig {
        source_type: "kafka".into(),
        topic: Some("new-input".into()),
        partitions: vec![0, 1, 2],
        config: Vec::new(),
    };
    mgr.reconfigure_source("rc", source, NOW).unwrap();
    assert_eq!(mgr.get("rc").unwrap().sources[0].topic.as_deref(), Some("new-input"));
    let sink = SinkConfig { sink_type: "nats".into(), topic: None, config: Vec::new() };
    assert_eq!(
        mgr.reconfigure_sink("rc", sink, NOW).unwrap_err().message(),
        "cannot change the sink type of pipeline 'rc'"
    );
}
