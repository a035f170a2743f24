use aeon_engine::definition::{PipelineDefinition, PohBlock, ProcessorRef, SinkConfig, SourceConfig};
use aeon_engine::pipeline_supervisor::{
    native_processor, pipeline_config_for, plan_processor, Admission, Admitted, LoadOutcome,
    PipelineSupervisor, Probes, ProcessorPlan, IDENTITY_PROCESSOR,
};
use aeon_engine::poh_probe::SecretLookup;
use aeon_engine::time::Duration;
use aeon_engine::types::{CheckpointBackend, DurabilityMode};

type Supervisor = PipelineSupervisor<u32, &'static str>;

fn def_for(name: &str) -> PipelineDefinition {
    PipelineDefinition::new(
        name.to_string(),
        SourceConfig {
            source_type: "count".into(),
            topic: None,
            partitions: vec![],
            config: Vec::new(),
        },
        ProcessorRef::new(IDENTITY_PROCESSOR.to_string(), "0.0.0".to_string()),
        SinkConfig {
            sink_type: "capture".into(),
            topic: None,
            config: Vec::new(),
        },
        0,
    )
}

fn passed() -> Probes {
    Probes { encryption: Ok(false), erasure: Ok(()), compliance: Ok(()) }
}

fn admitted(sup: &Supervisor, def: &PipelineDefinition, owned: Option<Vec<u16>>) -> Admitted {
    match sup.start(def, owned, passed()) {
        Ok(Admission::Admitted(a)) => a,
        Ok(Admission::AlreadyRunning(_)) => panic!("it does not run"),
        Err(e) => panic!("refused: {}", e.message()),
    }
}

fn refusal(sup: &Supervisor, def: &PipelineDefinition, probes: Probes) -> String {
    match sup.start(def, None, probes) {
        Err(e) => e.message().to_string(),
        Ok(_) => panic!("it is refused"),
    }
}

#[test]
fn pipeline_config_for_default_poh_is_disabled() {
    let def = def_for("p");
    let cfg = pipeline_config_for(&def);
    assert!(cfg.poh.is_none());
}

#[test]
fn pipeline_config_for_enabled_poh_populates_pipeline_config() {
    let mut def = def_for("p");
    def.poh = PohBlock {
        enabled: true,
        max_recent_entries: 4096,
        signing_key_ref: None,
    };
    let cfg = pipeline_config_for(&def);
    let poh = cfg.poh.expect("PohConfig must be populated when enabled");
    assert_eq!(poh.max_recent_entries, 4096);
    assert_eq!(poh.partition, 0);
    assert!(poh.signing_key.is_none());
}

#[test]
fn pipeline_config_follows_the_declared_durability() {
    let mut def = def_for("p");
    def.durability.mode = DurabilityMode::OrderedBatch;
    def.durability.checkpoint.backend = CheckpointBackend::StateStore;
    def.durability.checkpoint.interval = Some("250ms".to_string());
    let cfg = pipeline_config_for(&def);
    assert_eq!(cfg.pipeline_name, "p");
    assert_eq!(cfg.delivery.durability, DurabilityMode::OrderedBatch);
    assert_eq!(cfg.delivery.checkpoint.backend, CheckpointBackend::StateStore);
    assert_eq!(cfg.delivery.flush.interval, Duration::from_millis(250));
    // A typo in the interval is passed over.
    def.durability.checkpoint.interval = Some("250".to_string());
    assert_eq!(pipeline_config_for(&def).delivery.flush.interval, Duration::from_secs(1));
    // Without durability there are no checkpoints.
    def.durability.mode = DurabilityMode::Off;
    let off = pipeline_config_for(&def);
    assert_eq!(off.delivery.checkpoint.backend, CheckpointBackend::Off);
    assert_eq!(off.delivery.checkpoint.retention, Duration::zero());
}

#[test]
fn start_refuses_pipeline_with_signing_key_ref_when_no_registry() {
    let sup = Supervisor::new();
    let mut def = def_for("poh-needs-key");
    def.poh = PohBlock {
        enabled: true,
        max_recent_entries: 1024,
        signing_key_ref: Some("${ENV:AEON_POH_REQUIRED_KEY}".into()),
    };
    let a = admitted(&sup, &def, None);
    match sup.configure(&def, a, SecretLookup::NoRegistry, false) {
        Err(e) => assert!(e.message().contains("SecretRegistry")),
        Ok(_) => panic!("start must refuse without registry"),
    }
}

#[test]
fn set_secret_registry_is_once_only() {
    let mut sup = Supervisor::new();
    sup.set_secret_registry("r1").expect("first install");
    let err = sup.set_secret_registry("r2").unwrap_err();
    assert!(err.message().contains("already installed"));
    assert_eq!(sup.secret_registry, Some("r1"));
}

#[test]
fn ownership_resolver_install_is_once_only() {
    let mut sup = Supervisor::new();
    sup.set_ownership_resolver("a").expect("first install ok");
    let err = sup.set_ownership_resolver("b").unwrap_err();
    assert!(err.message().contains("already installed"));
}

#[test]
fn data_context_kek_install_is_once_only() {
    let mut sup = Supervisor::new();
    sup.set_data_context_kek("k").expect("first install ok");
    let err = sup.set_data_context_kek("l").unwrap_err();
    assert!(err.message().contains("already installed"));
    assert_eq!(sup.data_context_kek(), Some(&"k"));
}

#[test]
fn everything_else_is_installed_once_too() {
    let mut sup = Supervisor::new();
    assert!(sup.fault_injector().is_none());
    sup.set_l3_checkpoint_store("s").unwrap();
    sup.set_fault_injector("f").unwrap();
    sup.install_l2_root("/l2".to_string()).unwrap();
    sup.set_poh_installed_chains("c").unwrap();
    assert_eq!(sup.fault_injector(), Some(&"f"));
    assert_eq!(
        sup.set_l3_checkpoint_store("t").unwrap_err().message(),
        "PipelineSupervisor: L3 checkpoint store already installed"
    );
    assert_eq!(
        sup.set_fault_injector("g").unwrap_err().message(),
        "PipelineSupervisor: fault injector already installed"
    );
    assert_eq!(
        sup.install_l2_root("/x".to_string()).unwrap_err().message(),
        "supervisor: L2 root already installed"
    );
    assert_eq!(
        sup.set_poh_installed_chains("d").unwrap_err().message(),
        "PipelineSupervisor: poh_installed_chains registry already installed"
    );
}

#[test]
fn start_is_idempotent() {
    let mut sup = Supervisor::new();
    let def = def_for("p1");
    admitted(&sup, &def, None);
    sup.started("p1".to_string(), 7);
    assert!(matches!(sup.start(&def, None, passed()), Ok(Admission::AlreadyRunning(7))));
    // A pipeline that runs is not tested again.
    let mut broken = def_for("p1");
    broken.sources.clear();
    assert!(matches!(sup.start(&broken, None, passed()), Ok(Admission::AlreadyRunning(7))));
    assert_eq!(sup.stop("p1"), Some(7));
    assert_eq!(sup.stop("p1"), None);
    assert!(!sup.is_running("p1"));
}

#[test]
fn reconcile_starts_and_stops_to_match_desired() {
    let mut sup = Supervisor::new();
    let names = |list: &[&str]| list.iter().map(|s| s.to_string()).collect::<Vec<String>>();
    let converge = |sup: &mut Supervisor, desired: Vec<String>| {
        let plan = sup.reconcile(&desired);
        for name in plan.stop {
            assert!(sup.stop(&name).is_some());
        }
        for i in plan.start {
            sup.started(desired[i].clone(), i as u32);
        }
    };

    converge(&mut sup, names(&["a", "b"]));
    assert_eq!(sup.list_running(), vec!["a".to_string(), "b".to_string()]);

    converge(&mut sup, names(&["c", "b", "c"]));
    assert_eq!(sup.list_running(), vec!["b".to_string(), "c".to_string()]);
    // The one that was desired both times was left alone.
    assert_eq!(sup.get("b"), Some(&1));

    converge(&mut sup, names(&[]));
    assert!(sup.list_running().is_empty());
}

#[test]
fn pipelines_need_a_source_and_a_sink() {
    let sup = Supervisor::new();
    let mut def = def_for("p");
    def.sinks.clear();
    assert_eq!(refusal(&sup, &def, passed()), "pipeline 'p' has no sinks");
    def.sources.clear();
    assert_eq!(refusal(&sup, &def, passed()), "pipeline 'p' has no sources");
}

#[test]
fn empty_partitions_are_filled_from_ownership_resolver() {
    let mut sup = Supervisor::new();
    sup.set_ownership_resolver("r").expect("install resolver");
    let a = admitted(&sup, &def_for("p1"), Some(vec![5, 11, 17]));
    assert_eq!(a.partitions, vec![5, 11, 17]);
}

#[test]
fn explicit_partitions_are_not_overridden_by_resolver() {
    let mut sup = Supervisor::new();
    sup.set_ownership_resolver("r").expect("install resolver");
    let mut def = def_for("p1");
    def.sources[0].partitions = vec![1, 2, 3]; // explicit
    let a = admitted(&sup, &def, Some(vec![99]));
    assert_eq!(a.partitions, vec![1, 2, 3]);
}

#[test]
fn empty_partitions_without_resolver_pass_through_unchanged() {
    let sup = Supervisor::new();
    let a = admitted(&sup, &def_for("p1"), Some(vec![4]));
    assert!(a.partitions.is_empty());
}

#[test]
fn resolver_returning_none_preserves_empty_partitions() {
    let mut sup = Supervisor::new();
    sup.set_ownership_resolver("r").expect("install resolver");
    let a = admitted(&sup, &def_for("p1"), None);
    assert!(a.partitions.is_empty());
}

#[test]
fn start_refuses_when_at_rest_required_but_no_kek_installed() {
    let sup = Supervisor::new();
    let probes = Probes {
        encryption: Err("at_rest=required but no data-context KEK".to_string()),
        erasure: Err("later".to_string()),
        compliance: Ok(()),
    };
    let msg = refusal(&sup, &def_for("p-req-no-kek"), probes);
    assert!(msg.contains("refused to start") && msg.contains("no data-context KEK"));
    assert!(!sup.is_running("p-req-no-kek"));
}

#[test]
fn start_succeeds_when_at_rest_required_and_kek_installed() {
    let mut sup = Supervisor::new();
    sup.set_data_context_kek("kek").unwrap();
    let probes = Probes { encryption: Ok(true), erasure: Ok(()), compliance: Ok(()) };
    match sup.start(&def_for("p-req-kek"), None, probes) {
        Ok(Admission::Admitted(a)) => assert!(a.encrypts_at_rest),
        _ => panic!("the key is there"),
    }
}

#[test]
fn start_succeeds_with_at_rest_off_regardless_of_kek() {
    let mut sup = Supervisor::new();
    assert!(!admitted(&sup, &def_for("p-off"), None).encrypts_at_rest);
    sup.set_data_context_kek("kek").unwrap();
    assert!(!admitted(&sup, &def_for("p-off"), None).encrypts_at_rest);
}

#[test]
fn start_refuses_on_malformed_hold_after_ack() {
    let sup = Supervisor::new();
    let mut def = def_for("p-bad-hold");
    def.durability.retention.l2_body.hold_after_ack = Some("notaduration".into());
    let msg = refusal(&sup, &def, passed());
    assert!(msg.contains("refused to start") && msg.contains("retention"));
    assert!(!sup.is_running("p-bad-hold"));
}

#[test]
fn refusals_come_in_order() {
    let sup = Supervisor::new();
    let mut def = def_for("p");
    let erasure = || Probes {
        encryption: Ok(true),
        erasure: Err("erasure".to_string()),
        compliance: Err("compliance".to_string()),
    };
    assert_eq!(refusal(&sup, &def, erasure()), "pipeline 'p' refused to start: erasure");
    let compliance = || Probes {
        encryption: Ok(true),
        erasure: Ok(()),
        compliance: Err("compliance".to_string()),
    };
    assert_eq!(refusal(&sup, &def, compliance()), "pipeline 'p' refused to start: compliance");
    def.durability.retention.l2_body.hold_after_ack = Some(String::new());
    assert_eq!(
        refusal(&sup, &def, compliance()),
        "pipeline 'p' refused to start: retention: empty hold_after_ack string"
    );
}

#[test]
fn start_succeeds_with_valid_retention_fields() {
    let sup = Supervisor::new();
    let mut def = def_for("p-ret-ok");
    def.durability.retention.l2_body.hold_after_ack = Some("30s".into());
    def.durability.retention.l3_ack.max_records = Some(5_000);
    let a = admitted(&sup, &def, None);
    assert_eq!(a.retention.l2_hold_after_ack, Duration::from_secs(30));
    assert_eq!(a.retention.l3_max_records, Some(5_000));
}

#[test]
fn start_succeeds_with_inert_retention() {
    let sup = Supervisor::new();
    let a = admitted(&sup, &def_for("p-ret-inert"), None);
    assert!(a.retention.is_inert());
}

#[test]
fn a_durable_pipeline_needs_a_place_for_bodies() {
    let mut sup = Supervisor::new();
    let mut def = def_for("d");
    def.durability.mode = DurabilityMode::PerEvent;
    let a = admitted(&sup, &def, None);
    let err = match sup.configure(&def, a, SecretLookup::NoRegistry, true) {
        Err(e) => e,
        Ok(_) => panic!("no L2 root is installed"),
    };
    assert_eq!(
        err.message(),
        "pipeline 'd' declares durability.mode=PerEvent which requires L2 body persistence, but \
         no L2 root is installed on this supervisor (call PipelineSupervisor::install_l2_root \
         from cmd_serve)"
    );
    sup.install_l2_root("/l2".to_string()).unwrap();
    sup.set_l3_checkpoint_store("s").unwrap();
    sup.set_ownership_resolver("r").unwrap();
    let a = admitted(&sup, &def, None);
    let cfg = match sup.configure(&def, a, SecretLookup::NoRegistry, true) {
        Ok(cfg) => cfg,
        Err(e) => panic!("refused: {}", e.message()),
    };
    assert_eq!(cfg.l2_root.as_deref(), Some("/l2"));
    assert!(cfg.has_l3_checkpoint_store);
    assert!(cfg.has_write_gate);
    assert!(cfg.has_eo2_metrics);
    assert!(cfg.has_partition_reassign);
    assert!(!cfg.has_poh_installed_chains);
    assert!(cfg.has_poh_live_chains);
    assert_eq!(cfg.partition_id, 0);
}

#[test]
fn a_signing_key_is_stamped_on_the_chain() {
    let sup = Supervisor::new();
    let mut def = def_for("k");
    def.poh = PohBlock {
        enabled: true,
        max_recent_entries: 64,
        signing_key_ref: Some("ref".to_string()),
    };
    let a = admitted(&sup, &def, None);
    let cfg = match sup.configure(&def, a, SecretLookup::Found(vec![9u8; 32]), false) {
        Ok(cfg) => cfg,
        Err(e) => panic!("refused: {}", e.message()),
    };
    assert_eq!(cfg.poh.unwrap().signing_key, Some(vec![9u8; 32]));
}

#[test]
fn native_processors_are_found_by_name() {
    let path = |tier: Option<&str>, dir: Option<&str>| match plan_processor("p", tier, dir, "so") {
        ProcessorPlan::Native(path) => path,
        ProcessorPlan::Passthrough(to) => format!("passthrough {to}"),
    };
    assert_eq!(path(Some("native"), None), "/app/processors/p.so");
    assert_eq!(path(Some("NaTiVe"), Some("/opt/x/")), "/opt/x/p.so");
    assert_eq!(path(Some("native"), Some("")), "p.so");
    assert_eq!(path(Some("wasm"), Some("/opt")), "passthrough output");
    assert_eq!(path(None, None), "passthrough output");
    assert!(matches!(
        plan_processor("/abs/p", Some("native"), None, "dll"),
        ProcessorPlan::Native(p) if p == "/abs/p.dll"
    ));
}

#[test]
fn a_library_that_is_not_there_is_reported() {
    assert_eq!(native_processor("x.so", LoadOutcome::Loaded(3)).unwrap(), 3);
    let missing = native_processor::<u8>("x.so", LoadOutcome::Missing).unwrap_err();
    assert!(missing.message().starts_with(
        "supervisor: native processor artifact not found at x.so (manifest declares"
    ));
    let failed = native_processor::<u8>("x.so", LoadOutcome::Failed("bad ELF".to_string()));
    assert_eq!(
        failed.unwrap_err().message(),
        "supervisor: failed to load native processor from x.so: bad ELF"
    );
}
