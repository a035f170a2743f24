use aeon_engine::definition::{
    CanaryThresholds, PipelineDefinition, PipelineState, ProcessorRef, ProcessorType,
    ProcessorVersion, RegistryResponse, SinkConfig, SourceConfig, VersionStatus,
};
use aeon_engine::error::AeonError;
use aeon_engine::pipeline::metrics::PipelineMetrics;
use aeon_engine::pipeline_manager::PipelineManager;
use aeon_engine::processor_auth::PipelineScope;
use aeon_engine::registry::ProcessorRegistry;
use aeon_engine::rest_api::access::{
    api_router, authorize, authorize_with_keys, drain_steps, ready, security_headers, setting,
    validate_resource_name, DrainStep, Endpoint, Verb,
};
use aeon_engine::rest_api::delivery::{
    delivery_status, tail_frame, verify_pipeline, ChainReading, DeliveryRetry, FailedEntry,
    IntegrityReport, LedgerReading,
};
use aeon_engine::rest_api::pipelines::{
    blue_green_started, canary_started, canary_status, create_pipeline, cutover_pipeline,
    default_canary_steps, delete_pipeline, get_pipeline, pipeline_started, pipeline_swapped,
    promote_canary, reconfigure_sink, reconfigure_source, rollback_pipeline, start_pipeline,
    stop_pipeline, upgrade_blue_green, upgrade_canary, upgrade_pipeline, ControlAction,
};
use aeon_engine::rest_api::processors::{
    default_max_instances, delete_processor_version, get_processor, identity_registered,
    identity_revoked, instantiate_processor, instantiation_failed, list_processor_versions,
    list_processors, may_revoke, register_identity, register_processor, registration,
    Instantiation, InstantiationStage,
};
use aeon_engine::rest_api::reply::{proposed, Body, Reply};
use base64::Engine;

const NOW: i64 = 3000;

fn error_text(reply: &Reply) -> &str {
    match &reply.body {
        Body::Error { error } => error,
        other => panic!("a refusal was expected, not {other:?}"),
    }
}

fn done(reply: &Reply) -> (&str, Option<&str>, bool) {
    match &reply.body {
        Body::Done { status, method, replicated } => (status, method.as_deref(), *replicated),
        other => panic!("success was expected, not {other:?}"),
    }
}

fn definition(name: &str) -> PipelineDefinition {
    PipelineDefinition::new(
        name.to_string(),
        SourceConfig {
            source_type: "kafka".into(),
            topic: Some("in".into()),
            partitions: vec![0],
            config: Vec::new(),
        },
        processor("1.0.0"),
        SinkConfig {
            sink_type: "kafka".into(),
            topic: Some("out".into()),
            config: Vec::new(),
        },
        1000,
    )
}

fn processor(version: &str) -> ProcessorRef {
    ProcessorRef::new("proc".to_string(), version.to_string())
}

fn running(name: &str) -> PipelineManager {
    let mut manager = PipelineManager::new();
    manager.create(definition(name), NOW).unwrap();
    manager.start(name, "test", NOW).unwrap();
    manager
}

fn version(kind: ProcessorType) -> ProcessorVersion {
    ProcessorVersion {
        version: "1.0.0".into(),
        sha512: "abc123".into(),
        size_bytes: 1024,
        processor_type: kind,
        platform: "wasm32".into(),
        status: VersionStatus::Available,
        registered_at: 1000,
        registered_by: "test".into(),
        endpoint: None,
        max_batch_size: None,
    }
}

fn registry_with(kind: ProcessorType) -> ProcessorRegistry {
    let mut registry = ProcessorRegistry::new();
    register_processor(&mut registry, "my-proc".into(), "".into(), version(kind), NOW);
    registry
}

// ── Access ────────────────────────────────────────────────────────────

#[test]
fn names_must_be_able_to_stand_in_a_path() {
    assert!(validate_resource_name("orders-v2.1", "pipeline").is_ok());
    assert!(validate_resource_name(&"x".repeat(128), "pipeline").is_ok());
    let text = |name: &str| match validate_resource_name(name, "pipeline") {
        Err(reply) => {
            assert_eq!(reply.status, 400);
            error_text(&reply).to_string()
        }
        Ok(()) => panic!("'{name}' passed"),
    };
    assert_eq!(text(""), "pipeline name must be 1-128 characters");
    assert_eq!(text(&"x".repeat(129)), "pipeline name must be 1-128 characters");
    assert_eq!(text(&"é".repeat(65)), "pipeline name must be 1-128 characters");
    for bad in ["a..b", "a/b", "a\\b", ".."] {
        assert_eq!(text(bad), "pipeline name must not contain '..', '/', or '\\\\'");
    }
    assert_eq!(text(".hidden"), "pipeline name must not start with '.' or '-'");
    assert_eq!(text("-flag"), "pipeline name must not start with '.' or '-'");
    for bad in ["a\u{0}", "a\nb", "a\u{7f}", "a\u{9f}"] {
        assert_eq!(text(bad), "pipeline name must not contain control characters");
    }
}

#[test]
fn auth_rejects_missing_token() {
    let reply = authorize(Some("secret-token-123"), None).unwrap_err();
    assert_eq!(reply.status, 401);
    assert_eq!(
        error_text(&reply),
        "missing or malformed Authorization header (expected: Bearer <token>)"
    );
    let malformed = authorize(Some("secret-token-123"), Some("Basic x")).unwrap_err();
    assert_eq!(malformed.status, 401);
}

#[test]
fn auth_rejects_wrong_token() {
    let reply = authorize(Some("secret-token-123"), Some("Bearer wrong-token")).unwrap_err();
    assert_eq!(reply.status, 401);
    assert_eq!(error_text(&reply), "invalid bearer token");
}

#[test]
fn auth_accepts_correct_token() {
    assert!(authorize(Some("secret-token-123"), Some("Bearer secret-token-123")).is_ok());
    assert!(authorize(None, None).is_ok());
}

#[test]
fn named_keys_decide_likewise() {
    assert!(authorize_with_keys(false, None).is_ok());
    assert!(authorize_with_keys(true, Some(true)).is_ok());
    assert_eq!(
        error_text(&authorize_with_keys(true, Some(false)).unwrap_err()),
        "invalid bearer token"
    );
    assert!(error_text(&authorize_with_keys(true, None).unwrap_err()).starts_with("missing"));
}

#[test]
fn health_bypasses_auth() {
    let routes = api_router();
    let health = routes.iter().find(|r| r.path == "/health").unwrap();
    assert!(!health.needs_auth);
    assert_eq!(health.verb, Verb::Get);
    let open: Vec<&str> = routes.iter().filter(|r| !r.needs_auth).map(|r| r.path).collect();
    assert_eq!(open, vec!["/health", "/ready", "/metrics"]);
    for route in &routes {
        assert_eq!(route.needs_auth, route.path.starts_with("/api/v1/"));
    }
}

#[test]
fn every_route_stands_once() {
    let routes = api_router();
    assert_eq!(routes.len(), 37);
    for (i, a) in routes.iter().enumerate() {
        for b in &routes[i + 1..] {
            assert!(a.path != b.path || a.verb != b.verb);
            assert_ne!(a.endpoint, b.endpoint);
        }
        assert!(a.verb == Verb::Get || a.needs_auth);
    }
    let revoke = routes.iter().find(|r| r.endpoint == Endpoint::RevokeIdentity).unwrap();
    assert_eq!(revoke.verb, Verb::Delete);
    assert_eq!(revoke.path, "/api/v1/processors/{name}/identities/{fingerprint}");
    let drain = routes.iter().find(|r| r.endpoint == Endpoint::ClusterDrain).unwrap();
    assert_eq!(drain.verb, Verb::Post);
    assert_eq!(drain.path, "/api/v1/cluster/drain");
}

#[test]
fn security_headers_present() {
    assert_eq!(
        security_headers(),
        vec![
            ("x-content-type-options", "nosniff"),
            ("x-frame-options", "DENY"),
            ("cache-control", "no-store"),
        ]
    );
}

#[test]
fn ready_flips_to_503_when_shutting_down() {
    assert_eq!(ready(false), (200, "ready"));
    assert_eq!(ready(true), (503, "shutting_down"));
}

#[test]
fn settings_fall_back_to_the_usual() {
    assert_eq!(setting(None, 5), 5);
    assert_eq!(setting(Some("0"), 5), 0);
    assert_eq!(setting(Some("+12"), 5), 12);
    assert_eq!(setting(Some("18446744073709551615"), 5), u64::MAX);
    for bad in ["", "+", "-1", "1s", " 1", "18446744073709551616"] {
        assert_eq!(setting(Some(bad), 5), 5);
    }
}

#[test]
fn a_node_leaves_step_by_step() {
    assert_eq!(
        drain_steps(true, None, Some("250")),
        vec![
            DrainStep::MarkNotReady,
            DrainStep::RelinquishAndWait { budget_ms: 250, wait_secs: 5 },
            DrainStep::StopPipelines,
            DrainStep::ShutDownCluster,
        ]
    );
    assert_eq!(
        drain_steps(false, Some("0"), None),
        vec![DrainStep::MarkNotReady, DrainStep::Wait { secs: 0 }, DrainStep::StopPipelines]
    );
}

// ── Processors ────────────────────────────────────────────────────────

#[test]
fn list_processors_empty() {
    assert!(list_processors(&ProcessorRegistry::new()).is_empty());
}

#[test]
fn get_processor_not_found() {
    let registry = ProcessorRegistry::new();
    let reply = get_processor(&registry, "nonexistent").unwrap_err();
    assert_eq!(reply.status, 404);
    assert_eq!(error_text(&reply), "processor 'nonexistent' not found");
    assert!(list_processor_versions(&registry, "nonexistent").is_err());
}

#[test]
fn register_processor_via_api() {
    let mut registry = ProcessorRegistry::new();
    let reply = register_processor(
        &mut registry,
        "my-proc".into(),
        "test processor".into(),
        version(ProcessorType::Wasm),
        NOW,
    );
    assert_eq!(reply.status, 201);
    match &reply.body {
        Body::Registered { name, version, replicated } => {
            assert_eq!(name, "my-proc");
            assert_eq!(version, "1.0.0");
            assert!(!replicated);
        }
        other => panic!("{other:?}"),
    }
    // Verify it shows up in list
    let items = list_processors(&registry);
    assert_eq!(items.len(), 1);
    assert_eq!(items[0].name, "my-proc");
    assert_eq!(items[0].version_count, 1);
    assert_eq!(items[0].latest_version.as_deref(), Some("1.0.0"));
    assert!(get_processor(&registry, "my-proc").is_ok());
    assert_eq!(list_processor_versions(&registry, "my-proc").unwrap().len(), 1);
}

#[test]
fn registrations_in_a_cluster() {
    let ok = registration(
        Ok(RegistryResponse::ProcessorRegistered { name: "p".into(), version: "1".into() }),
        true,
    );
    assert_eq!(ok.status, 201);
    assert!(matches!(ok.body, Body::Registered { replicated: true, .. }));
    let refused = registration(Ok(RegistryResponse::Error { message: "no".into() }), true);
    assert_eq!((refused.status, error_text(&refused)), (400, "no"));
    let other = registration(Ok(RegistryResponse::Done), true);
    assert_eq!(other.status, 200);
    assert!(matches!(other.body, Body::Response(RegistryResponse::Done)));
    let failed = registration(Err("raft".into()), true);
    assert_eq!((failed.status, error_text(&failed)), (500, "raft"));
}

#[test]
fn versions_are_deleted_unless_they_run() {
    let mut registry = registry_with(ProcessorType::Wasm);
    let missing = delete_processor_version(&mut registry, "my-proc", "9", NOW);
    assert_eq!((missing.status, done(&missing).0), (200, "deleted"));
    assert_eq!(registry.count(), 1);
    let gone = delete_processor_version(&mut registry, "my-proc", "1.0.0", NOW);
    assert_eq!(gone.status, 200);
    assert_eq!(registry.count(), 0);
    let mut active = version(ProcessorType::Wasm);
    active.status = VersionStatus::Active;
    register_processor(&mut registry, "my-proc".into(), "".into(), active, NOW);
    let kept = delete_processor_version(&mut registry, "my-proc", "1.0.0", NOW);
    assert_eq!(kept.status, 400);
    assert_eq!(
        error_text(&kept),
        "cannot delete active version my-proc:1.0.0 — stop pipelines first"
    );
}

#[test]
fn processors_are_brought_to_life_by_type() {
    let wasm = registry_with(ProcessorType::Wasm);
    let native = registry_with(ProcessorType::NativeSo);
    let socket = registry_with(ProcessorType::WebSocket);
    assert_eq!(
        instantiate_processor(&wasm, "my-proc", "1.0.0", Ok(()), false).unwrap(),
        Instantiation::Wasm
    );
    assert_eq!(
        instantiate_processor(&native, "my-proc", "1.0.0", Ok(()), true).unwrap(),
        Instantiation::Native
    );
    let text = |r: &ProcessorRegistry, name: &str, ver: &str, artifact: Result<(), String>| {
        let reply = instantiate_processor(r, name, ver, artifact, false).unwrap_err();
        (reply.status, error_text(&reply).to_string())
    };
    assert_eq!(
        text(&wasm, "my-proc", "1.0.0", Err("io".into())),
        (400, "failed to load artifact: io".to_string())
    );
    assert_eq!(text(&wasm, "x", "1", Ok(())), (404, "processor 'x' not found".to_string()));
    assert_eq!(
        text(&wasm, "my-proc", "2", Ok(())),
        (404, "version my-proc:2 not found".to_string())
    );
    assert!(text(&socket, "my-proc", "1.0.0", Ok(()))
        .1
        .ends_with("' — T3/T4 processors are managed externally"));
    assert_eq!(text(&native, "my-proc", "1.0.0", Ok(())).0, 400);
    for (stage, front) in [
        (InstantiationStage::CompileWasm, "failed to compile Wasm module: "),
        (InstantiationStage::CreateWasm, "failed to create Wasm processor: "),
        (InstantiationStage::LoadNative, "failed to load native processor: "),
    ] {
        let reply = instantiation_failed(stage, "why");
        assert_eq!((reply.status, error_text(&reply)), (400, format!("{front}why").as_str()));
    }
}

#[test]
fn identities_are_registered_and_revoked() {
    let key = format!(
        "ed25519:{}",
        base64::engine::general_purpose::STANDARD.encode([3u8; 32])
    );
    let id = register_identity(
        "proc".into(),
        key.clone(),
        PipelineScope::All,
        default_max_instances(),
        NOW,
    )
    .unwrap();
    assert_eq!(id.processor_name, "proc");
    assert_eq!(id.public_key, key);
    assert_eq!(id.max_instances, 1);
    assert_eq!(id.registered_at, NOW);
    assert_eq!(id.registered_by, "api");
    assert!(id.fingerprint.starts_with("SHA256:"));
    let bad = register_identity("proc".into(), "x".into(), PipelineScope::All, 1, NOW);
    assert_eq!(bad.unwrap_err().status, 400);

    let created = identity_registered(Ok(id.fingerprint.clone()));
    assert_eq!(created.status, 201);
    assert!(matches!(&created.body, Body::IdentityActive { fingerprint } if *fingerprint == id.fingerprint));
    assert_eq!(identity_registered(Err("exists".into())).status, 409);

    assert!(may_revoke("proc", "fp", Some(&id)).is_ok());
    let foreign = may_revoke("other", "fp", Some(&id)).unwrap_err();
    assert_eq!(error_text(&foreign), "identity fp does not belong to processor 'other'");
    let unknown = may_revoke("proc", "fp", None).unwrap_err();
    assert_eq!((unknown.status, error_text(&unknown)), (404, "identity fp not found"));

    let revoked = identity_revoked("fp".into(), true, NOW);
    assert!(matches!(revoked.body, Body::IdentityRevoked { revoked_at: NOW, .. }));
    let again = identity_revoked("fp".into(), false, NOW);
    assert_eq!((again.status, error_text(&again)), (409, "identity fp is already revoked"));
}

// ── Pipelines ─────────────────────────────────────────────────────────

#[test]
fn list_pipelines_empty() {
    assert!(PipelineManager::new().list_with_state().is_empty());
}

#[test]
fn pipelines_are_created_once() {
    let mut manager = PipelineManager::new();
    let reply = create_pipeline(&mut manager, definition("p"), NOW);
    assert_eq!((reply.status, done(&reply)), (201, ("created", None, false)));
    let again = create_pipeline(&mut manager, definition("p"), NOW);
    assert_eq!((again.status, error_text(&again)), (400, "pipeline 'p' already exists"));
    let bad = create_pipeline(&mut manager, definition("../x"), NOW);
    assert_eq!(bad.status, 400);
    assert_eq!(manager.count(), 1);
    assert!(get_pipeline(&manager, "p").is_ok());
    let missing = get_pipeline(&manager, "q").unwrap_err();
    assert_eq!((missing.status, error_text(&missing)), (404, "pipeline 'q' not found"));
}

#[test]
fn changes_in_a_cluster() {
    let ok = proposed(Ok(RegistryResponse::Done), 200, "started");
    assert_eq!((ok.status, done(&ok)), (200, ("started", None, true)));
    let refused = proposed(Ok(RegistryResponse::Error { message: "no".into() }), 200, "started");
    assert_eq!((refused.status, error_text(&refused)), (400, "no"));
    let failed = proposed(Err("raft".into()), 201, "created");
    assert_eq!((failed.status, error_text(&failed)), (500, "raft"));
}

#[test]
fn pipeline_lifecycle_via_api() {
    let mut manager = PipelineManager::new();
    manager.create(definition("test-pipe"), NOW).unwrap();

    start_pipeline(&mut manager, "test-pipe", NOW).unwrap();
    let reply = pipeline_started(Ok(()));
    assert_eq!((reply.status, done(&reply).0), (200, "started"));
    assert_eq!(manager.get("test-pipe").unwrap().state, PipelineState::Running);

    let reply = stop_pipeline(&mut manager, "test-pipe", NOW);
    assert_eq!((reply.status, done(&reply).0), (200, "stopped"));
    assert_eq!(manager.get("test-pipe").unwrap().state, PipelineState::Stopped);

    assert_eq!(start_pipeline(&mut manager, "ghost", NOW).unwrap_err().status, 400);
    assert_eq!(stop_pipeline(&mut manager, "ghost", NOW).status, 400);
    let refused = pipeline_started(Err(AeonError::config("no source".into())));
    assert_eq!((refused.status, error_text(&refused)), (400, "no source"));
}

#[test]
fn pipeline_history_via_api() {
    let mut def = definition("hist-pipe");
    def.sources[0].source_type = "memory".into();
    def.sources[0].topic = None;
    def.sources[0].partitions = vec![];
    def.sinks[0].sink_type = "blackhole".into();
    def.sinks[0].topic = None;
    let mut manager = PipelineManager::new();
    manager.create(def, NOW).unwrap();
    manager.start("hist-pipe", "test", NOW).unwrap();
    // Should have at least 2 entries: created + started
    assert!(manager.history("hist-pipe").len() >= 2);
}

#[test]
fn upgrades_in_one_step() {
    let mut manager = running("u");
    let reply = upgrade_pipeline(&mut manager, "u", processor("2.0.0"), NOW);
    assert_eq!(done(&reply), ("upgraded", Some("metadata"), false));
    assert_eq!(manager.get("u").unwrap().processor.version, "2.0.0");
    let failed = pipeline_swapped(&mut manager, "u", processor("3"), Err("late".into()), NOW);
    assert_eq!((failed.status, error_text(&failed)), (500, "drain-and-swap failed: late"));
    assert_eq!(manager.get("u").unwrap().processor.version, "2.0.0");
    let swapped = pipeline_swapped(&mut manager, "u", processor("3"), Ok(()), NOW);
    assert_eq!(done(&swapped), ("upgraded", Some("hot-swap"), false));
    assert_eq!(manager.get("u").unwrap().processor.version, "3");
    assert_eq!(upgrade_pipeline(&mut manager, "ghost", processor("1"), NOW).status, 400);
}

#[test]
fn blue_green_via_api() {
    let mut manager = running("bg-api");

    // Start blue-green upgrade
    upgrade_blue_green(&mut manager, "bg-api", processor("2.0.0"), NOW).unwrap();
    let reply = blue_green_started(None);
    assert_eq!((reply.status, done(&reply)), (200, ("blue-green-started", Some("metadata"), false)));

    // Cutover
    let (reply, action) = cutover_pipeline(&mut manager, "bg-api", false, NOW);
    assert_eq!((reply.status, done(&reply)), (200, ("cutover-complete", Some("metadata"), false)));
    assert_eq!(action, ControlAction::Nothing);

    assert_eq!(manager.get("bg-api").unwrap().processor.version, "2.0.0");
}

#[test]
fn a_running_pipeline_is_cut_over() {
    let mut manager = running("bg-api");
    upgrade_blue_green(&mut manager, "bg-api", processor("2.0.0"), NOW).unwrap();
    let (reply, action) = cutover_pipeline(&mut manager, "bg-api", true, NOW);
    assert_eq!(done(&reply), ("cutover-complete", Some("managed"), false));
    assert_eq!(action, ControlAction::CutOver);

    assert_eq!(done(&blue_green_started(Some(Ok(())))).1, Some("managed"));
    let failed = blue_green_started(Some(Err("x".into())));
    assert_eq!((failed.status, error_text(&failed)), (500, "failed to start blue-green: x"));
    let (again, action) = cutover_pipeline(&mut manager, "bg-api", true, NOW);
    assert_eq!((again.status, action), (400, ControlAction::Nothing));
}

#[test]
fn rollback_via_api() {
    let mut manager = running("rb-api");
    manager.upgrade_blue_green("rb-api", processor("2.0.0"), "test", NOW).unwrap();

    let (reply, action) = rollback_pipeline(&mut manager, "rb-api", false, NOW);
    assert_eq!((reply.status, done(&reply)), (200, ("rolled-back", Some("metadata"), false)));
    assert_eq!(action, ControlAction::Nothing);

    assert_eq!(manager.get("rb-api").unwrap().processor.version, "1.0.0");
    assert_eq!(rollback_pipeline(&mut manager, "rb-api", true, NOW).0.status, 400);
}

#[test]
fn canary_via_api() {
    let mut manager = running("can-api");

    // Start canary
    upgrade_canary(
        &mut manager,
        "can-api",
        processor("2.0.0"),
        vec![10, 100],
        CanaryThresholds::default(),
        NOW,
    )
    .unwrap();
    let reply = canary_started(None);
    assert_eq!((reply.status, done(&reply).1), (200, Some("metadata")));

    // Check canary status
    assert_eq!(canary_status(&manager, "can-api").unwrap().traffic_pct, 10);

    // Promote to 100%
    let (reply, action) = promote_canary(&mut manager, "can-api", false, NOW);
    assert_eq!((reply.status, action), (200, ControlAction::Nothing));

    // Promote again → complete
    let (reply, action) = promote_canary(&mut manager, "can-api", false, NOW);
    assert_eq!((reply.status, action), (200, ControlAction::Nothing));

    assert_eq!(manager.get("can-api").unwrap().processor.version, "2.0.0");
}

#[test]
fn a_running_canary_moves_on_step_by_step() {
    let mut manager = running("can-api");

    // Start canary
    let share = upgrade_canary(
        &mut manager,
        "can-api",
        processor("2.0.0"),
        vec![10, 60, 100],
        CanaryThresholds::default(),
        NOW,
    )
    .unwrap();
    assert_eq!(share, 10);
    assert_eq!(done(&canary_started(None)).1, Some("metadata"));

    // Check canary status
    assert_eq!(canary_status(&manager, "can-api").unwrap().traffic_pct, 10);

    let (reply, action) = promote_canary(&mut manager, "can-api", true, NOW);
    assert_eq!(done(&reply), ("promoted", Some("managed"), false));
    assert_eq!(action, ControlAction::SetCanaryPct(60));

    // Promote to 100%
    let (_, action) = promote_canary(&mut manager, "can-api", true, NOW);
    assert_eq!(action, ControlAction::CompleteCanary);

    // Promote again → complete
    let (reply, action) = promote_canary(&mut manager, "can-api", true, NOW);
    assert_eq!((reply.status, action), (200, ControlAction::Nothing));

    assert_eq!(manager.get("can-api").unwrap().processor.version, "2.0.0");
    let over = canary_status(&manager, "can-api").unwrap_err();
    assert_eq!(
        (over.status, error_text(&over)),
        (404, "no canary upgrade in progress for 'can-api'")
    );
    assert_eq!(promote_canary(&mut manager, "can-api", true, NOW).0.status, 400);
    let failed = canary_started(Some(Err("x".into())));
    assert_eq!((failed.status, error_text(&failed)), (500, "failed to start canary: x"));
    assert_eq!(default_canary_steps(), vec![10, 50, 100]);
}

#[test]
fn reconfigure_source_via_api() {
    let mut manager = running("reconf-src-api");
    let source = SourceConfig {
        source_type: "kafka".into(),
        topic: Some("new-input".into()),
        partitions: vec![0, 1, 2],
        config: Vec::new(),
    };
    let reply = reconfigure_source(&mut manager, "reconf-src-api", source, NOW);
    assert_eq!((reply.status, done(&reply).0), (200, "source-reconfigured"));

    let p = manager.get("reconf-src-api").unwrap();
    assert_eq!(p.sources[0].topic.as_deref(), Some("new-input"));
    assert_eq!(p.sources[0].partitions, vec![0, 1, 2]);
}

#[test]
fn reconfigure_sink_via_api() {
    let mut manager = running("reconf-sink-api");
    let sink = SinkConfig {
        sink_type: "kafka".into(),
        topic: Some("new-output".into()),
        config: Vec::new(),
    };
    let reply = reconfigure_sink(&mut manager, "reconf-sink-api", sink, NOW);
    assert_eq!((reply.status, done(&reply).0), (200, "sink-reconfigured"));

    let p = manager.get("reconf-sink-api").unwrap();
    assert_eq!(p.sinks[0].topic.as_deref(), Some("new-output"));
}

#[test]
fn reconfigure_cross_type_rejected_via_api() {
    let mut manager = running("reconf-cross-api");
    let source = SourceConfig {
        source_type: "nats".into(),
        topic: Some("stream".into()),
        partitions: Vec::new(),
        config: Vec::new(),
    };
    let reply = reconfigure_source(&mut manager, "reconf-cross-api", source, NOW);
    assert_eq!(reply.status, 400);
}

#[test]
fn reconfigure_nonexistent_pipeline() {
    let mut manager = PipelineManager::new();
    let source = SourceConfig {
        source_type: "kafka".into(),
        topic: Some("t".into()),
        partitions: Vec::new(),
        config: Vec::new(),
    };
    let reply = reconfigure_source(&mut manager, "ghost", source, NOW);
    assert_eq!(reply.status, 400);
}

#[test]
fn pipelines_are_deleted_when_they_do_not_run() {
    let mut manager = running("d");
    assert_eq!(delete_pipeline(&mut manager, "d").status, 400);
    stop_pipeline(&mut manager, "d", NOW);
    let reply = delete_pipeline(&mut manager, "d");
    assert_eq!((reply.status, done(&reply).0), (200, "deleted"));
    assert_eq!(manager.count(), 0);
}

// ── Deliveries, integrity, live figures ───────────────────────────────

#[test]
fn delivery_status_no_ledger() {
    let reply = delivery_status("nonexistent", None).unwrap_err();
    assert_eq!(reply.status, 404);
    assert_eq!(error_text(&reply), "no delivery ledger for pipeline 'nonexistent'");
}

#[test]
fn delivery_status_with_ledger() {
    let reading = LedgerReading {
        pending_count: 0,
        failed_count: 1,
        total_tracked: 2,
        total_acked: 1,
        total_failed: 1,
        oldest_pending_age_ms: None,
        failed: vec![FailedEntry {
            event_id: 0x0123_4567_89ab_cdef_0123_4567_89ab_cdef,
            partition: 0,
            source_offset: 101,
            reason: "timeout".into(),
            attempts: 3,
        }],
    };
    let report = delivery_status("test-pipe", Some(reading)).unwrap();
    assert_eq!(report.pipeline, "test-pipe");
    assert_eq!(report.pending_count, 0);
    assert_eq!(report.failed_count, 1);
    assert_eq!(report.total_tracked, 2);
    assert_eq!(report.total_acked, 1);
    assert_eq!(report.failed_entries.len(), 1);
    assert_eq!(report.failed_entries[0].reason, "timeout");
    assert_eq!(report.failed_entries[0].event_id, "01234567-89ab-cdef-0123-456789abcdef");
}

#[test]
fn delivery_retry_removes_failed() {
    let id: u128 = 0x0123_4567_89ab_cdef_0123_4567_89ab_cdef;
    let mut ledger = vec![id];
    let texts = vec!["01234567-89ab-cdef-0123-456789abcdef".to_string()];
    let mut retry = match DeliveryRetry::begin("retry-pipe", true, &texts) {
        Ok(retry) => retry,
        Err(_) => panic!("the ledger is there"),
    };
    while let Some(next) = retry.next() {
        let before = ledger.len();
        ledger.retain(|x| *x != next);
        retry.looked(ledger.len() < before);
    }
    let reply = retry.finish();
    assert_eq!(reply.status, 200);
    assert!(matches!(reply.body, Body::Retried { retried: 1, not_found: 0 }));
    // Ledger should be empty now
    assert!(ledger.is_empty());
}

#[test]
fn what_is_not_there_is_not_retried() {
    let id: u128 = 0x0123_4567_89ab_cdef_0123_4567_89ab_cdef;
    let mut ledger = vec![id];
    let texts = vec![
        "01234567-89ab-cdef-0123-456789abcdef".to_string(),
        "not an id".to_string(),
        "01234567-89AB-CDEF-0123-456789ABCDEF".to_string(),
    ];
    let mut retry = match DeliveryRetry::begin("retry-pipe", true, &texts) {
        Ok(retry) => retry,
        Err(_) => panic!("the ledger is there"),
    };
    while let Some(next) = retry.next() {
        assert_eq!(next, id);
        let before = ledger.len();
        ledger.retain(|x| *x != next);
        retry.looked(ledger.len() < before);
    }
    let reply = retry.finish();
    assert_eq!(reply.status, 200);
    assert!(matches!(reply.body, Body::Retried { retried: 1, not_found: 2 }));
    assert!(ledger.is_empty());
    assert!(DeliveryRetry::begin("retry-pipe", false, &texts).is_err());
}

#[test]
fn integrity_of_one_and_of_all() {
    let mut manager = running("a");
    manager.create(definition("b"), NOW).unwrap();
    let chain = ChainReading {
        partition: 2,
        sequence: 9,
        current_hash: vec![0xde, 0xad],
        mmr_root: vec![0x01],
        recent_entries: 4,
        invalid_at: Some(3),
        any_signed: true,
    };
    match verify_pipeline(&manager, "a", Some(chain), &vec![true, false]) {
        Ok(IntegrityReport::Active(report)) => {
            assert_eq!(report.current_hash, "dead");
            assert_eq!(report.mmr_root, "01");
            assert_eq!(report.verification, "invalid");
            assert_eq!(report.invalid_at_index, Some(3));
            assert_eq!(report.signing, "active");
        }
        _ => panic!("the chain is active"),
    }
    assert!(matches!(
        verify_pipeline(&manager, "b", None, &vec![true, false]),
        Ok(IntegrityReport::Inactive)
    ));
    match verify_pipeline(&manager, "all", None, &vec![true, false]) {
        Ok(IntegrityReport::All(items)) => {
            assert_eq!(items.len(), 2);
            assert_eq!((items[0].name.as_str(), items[0].state, items[0].poh_active),
                ("a", "running", true));
            assert_eq!((items[1].name.as_str(), items[1].state, items[1].poh_active),
                ("b", "created", false));
        }
        _ => panic!("all were asked for"),
    }
    match verify_pipeline(&manager, "c", None, &vec![true, false]) {
        Err(reply) => assert_eq!((reply.status, error_text(&reply)), (404, "pipeline 'c' not found")),
        Ok(_) => panic!("no such pipeline"),
    }
}

#[test]
fn live_figures_follow_the_state() {
    let manager = running("t");
    let metrics = PipelineMetrics { events_received: 4, ..PipelineMetrics::new() };
    let frame = tail_frame(&manager, "t", Some(metrics), NOW);
    assert_eq!((frame.pipeline.as_str(), frame.state.as_str()), ("t", "running"));
    assert_eq!(frame.metrics.unwrap().events_received, 4);
    assert_eq!(frame.timestamp, NOW);
    assert_eq!(tail_frame(&manager, "gone", None, NOW).state, "unknown");
}
