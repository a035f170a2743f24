use aeon_engine::partition_install::{
    create_poh_state, poh_append_batch, poh_appended, ChainStart, FinishStep,
    InstalledPohChainRegistry, L2SegmentInstaller, PohChainInstallerImpl, PohVerifyMode,
};
use aeon_engine::pipeline::config::{PipelineConfig, PohConfig};
use aeon_engine::pipeline::metrics::PipelineMetrics;
use aeon_engine::types::Output;

/// The segments that a transfer has written, by start sequence.
type Segments = Vec<(u64, Vec<u8>)>;

#[derive(Debug, PartialEq)]
struct Chain {
    partition: u16,
    sequence: u64,
}

fn populated_state(partition: u16) -> Chain {
    Chain { partition, sequence: 3 }
}

fn verdict(chain: &Chain, partition: u16) -> Result<(), String> {
    if chain.partition == partition {
        Ok(())
    } else {
        Err("partition mismatch".to_string())
    }
}

#[test]
fn l2_installer_writes_segments_and_cleans_on_abort() {
    let mut installer: L2SegmentInstaller<Segments> =
        L2SegmentInstaller::new("/data".to_string(), "pl1".to_string());
    let data = b"hello world L2 payload";
    installer.begin("pl1", 0, Vec::new()).unwrap();
    installer.apply_chunk("pl1", 0).unwrap().push((0, data.to_vec()));
    match installer.finish("pl1", 0, true) {
        Ok(FinishStep::Commit(written)) => assert_eq!(written, vec![(0, data.to_vec())]),
        _ => panic!("a transfer that succeeded is committed"),
    }
    assert_eq!(installer.root(), "/data");
    assert_eq!(installer.partition_dir(0), "/data/pl1/p00000");
}

#[test]
fn l2_installer_cleans_partition_dir_on_abort() {
    let mut installer: L2SegmentInstaller<Segments> =
        L2SegmentInstaller::new("/data".to_string(), "pl".to_string());
    installer.begin("pl", 3, Vec::new()).unwrap();
    match installer.finish("pl", 3, false) {
        Ok(FinishStep::Discard(written)) => assert!(written.is_empty()),
        _ => panic!("partition dir should be cleaned on abort"),
    }
    assert_eq!(installer.partition_dir(3), "/data/pl/p00003");
}

#[test]
fn l2_installer_rejects_double_begin() {
    let mut installer: L2SegmentInstaller<Segments> =
        L2SegmentInstaller::new("/data".to_string(), "pl".to_string());
    installer.begin("pl", 0, Vec::new()).unwrap();
    let err = installer.begin("pl", 0, Vec::new()).unwrap_err();
    assert_eq!(
        err.message(),
        "l2-installer: begin called twice for pipeline=pl partition=0"
    );
    // Another partition is another transfer.
    assert!(installer.begin("pl", 1, Vec::new()).is_ok());
}

#[test]
fn l2_installer_apply_without_begin_errors() {
    let mut installer: L2SegmentInstaller<Segments> =
        L2SegmentInstaller::new("/data".to_string(), "pl".to_string());
    match installer.apply_chunk("pl", 0) {
        Err(e) => assert_eq!(
            e.message(),
            "l2-installer: apply_chunk without begin for pipeline=pl partition=0"
        ),
        Ok(_) => panic!("no transfer is in progress"),
    }
}

#[test]
fn a_transfer_can_be_repeated_after_it_ended() {
    let mut installer: L2SegmentInstaller<Segments> =
        L2SegmentInstaller::new("/data".to_string(), "pl".to_string());
    installer.begin("pl", 65535, Vec::new()).unwrap();
    assert!(installer.finish("pl", 65535, false).is_ok());
    match installer.finish("pl", 65535, false) {
        Err(e) => assert_eq!(
            e.message(),
            "l2-installer: finish without begin for pipeline=pl partition=65535"
        ),
        Ok(_) => panic!("the transfer has ended"),
    }
    assert!(installer.begin("pl", 65535, Vec::new()).is_ok());
    assert_eq!(installer.partition_dir(65535), "/data/pl/p65535");
}

#[test]
fn partition_directories_lie_below_the_root() {
    let dir = |root: &str, pipeline: &str| {
        let installer: L2SegmentInstaller<Segments> =
            L2SegmentInstaller::new(root.to_string(), pipeline.to_string());
        installer.partition_dir(42)
    };
    assert_eq!(dir("/data", "pl"), "/data/pl/p00042");
    assert_eq!(dir("/data/", "pl"), "/data/pl/p00042");
    assert_eq!(dir("data", "pl"), "data/pl/p00042");
    assert_eq!(dir("", "pl"), "pl/p00042");
    assert_eq!(dir("/data", "/elsewhere"), "/elsewhere/p00042");
    for (root, pipeline) in [("/data", "pl"), ("/data/", "pl"), ("", "pl"), ("/data", "")] {
        let joined = std::path::Path::new(root).join(pipeline).join("p00042");
        assert_eq!(std::path::Path::new(&dir(root, pipeline)), joined);
    }
}

#[test]
fn a_chunk_changes_its_own_transfer_only() {
    let mut installer: L2SegmentInstaller<Segments> =
        L2SegmentInstaller::new("/data".to_string(), "pl".to_string());
    installer.begin("pl", 1, Vec::new()).unwrap();
    installer.begin("pl", 2, Vec::new()).unwrap();
    installer.apply_chunk("pl", 1).unwrap().push((0, vec![1]));
    assert_eq!(installer.root(), "/data");
    assert_eq!(installer.partition_dir(1), "/data/pl/p00001");
    match installer.finish("pl", 2, true) {
        Ok(FinishStep::Commit(written)) => assert!(written.is_empty()),
        _ => panic!("the other transfer is committed"),
    }
}

#[test]
fn poh_installer_decodes_verifies_and_registers() {
    let mut registry = InstalledPohChainRegistry::new();
    let installer = PohChainInstallerImpl::new(PohVerifyMode::Verify);
    let state = populated_state(4);
    let verified = verdict(&state, 4);
    installer
        .install(&mut registry, "pl", 4, &vec![1], Ok(state), verified)
        .unwrap();
    let chain = registry.take("pl", 4).expect("chain should be registered");
    assert_eq!(chain.partition, 4);
    assert_eq!(chain.sequence, 3);
    // It was taken.
    assert!(registry.take("pl", 4).is_none());
}

#[test]
fn poh_installer_verify_rejects_wrong_partition() {
    let mut registry = InstalledPohChainRegistry::new();
    let installer = PohChainInstallerImpl::new(PohVerifyMode::Verify);
    let state = populated_state(4); // state carries partition 4…
    let verified = verdict(&state, 9); // …but request claims partition 9
    let err = installer
        .install(&mut registry, "pl", 9, &vec![1], Ok(state), verified)
        .unwrap_err();
    assert!(err.message().contains("verify_state"));
    assert!(registry.take("pl", 9).is_none());
}

#[test]
fn poh_installer_trust_extend_skips_verification() {
    let mut registry = InstalledPohChainRegistry::new();
    let installer = PohChainInstallerImpl::new(PohVerifyMode::TrustExtend);
    let state = populated_state(4);
    let verified = verdict(&state, 9); // wrong on purpose
    installer
        .install(&mut registry, "pl", 9, &vec![1], Ok(state), verified)
        .unwrap();
    // Installed under (pl, 9), the partition of the request.
    let chain = registry.take("pl", 9).unwrap();
    // The chain still carries the source partition.
    assert_eq!(chain.partition, 4);
}

#[test]
fn poh_installer_accepts_empty_state_as_fresh_partition() {
    let mut registry: InstalledPohChainRegistry<Chain> = InstalledPohChainRegistry::new();
    let installer = PohChainInstallerImpl::new(PohVerifyMode::Verify);
    installer
        .install(
            &mut registry,
            "pl",
            0,
            &Vec::new(),
            Err("no bytes".to_string()),
            Err("no chain".to_string()),
        )
        .unwrap();
    // Nothing got inserted.
    assert!(registry.take("pl", 0).is_none());
}

#[test]
fn poh_installer_verify_with_key_currently_degrades_to_verify() {
    let mut registry = InstalledPohChainRegistry::new();
    let installer = PohChainInstallerImpl::new(PohVerifyMode::VerifyWithKey);
    let state = populated_state(0);
    let verified = verdict(&state, 0);
    installer
        .install(&mut registry, "pl", 0, &vec![1], Ok(state), verified)
        .unwrap();
    assert!(registry.take("pl", 0).is_some());
}

#[test]
fn poh_installer_reports_what_does_not_decode() {
    let mut registry: InstalledPohChainRegistry<Chain> = InstalledPohChainRegistry::new();
    let installer = PohChainInstallerImpl::new(PohVerifyMode::TrustExtend).with_max_recent(7);
    assert_eq!(installer.max_recent, 7);
    let err = installer
        .install(&mut registry, "pl", 0, &vec![9], Err("truncated".to_string()), Ok(()))
        .unwrap_err();
    assert_eq!(err.message(), "poh-installer: decode PohChainState: truncated");
}

#[test]
fn create_poh_state_returns_none_when_disabled() {
    let config = PipelineConfig::default();
    let start: Option<ChainStart<Chain>> = create_poh_state(&config, None);
    assert!(start.is_none());
}

#[test]
fn create_poh_state_returns_some_when_enabled() {
    let config = PipelineConfig { poh: Some(PohConfig::default()), ..PipelineConfig::default() };
    let start: Option<ChainStart<Chain>> = create_poh_state(&config, None);
    // A chain that begins anew is at its start.
    assert!(matches!(
        start,
        Some(ChainStart::Genesis { partition: 0, max_recent_entries: 1024 })
    ));
}

#[test]
fn a_new_chain_is_set_up_as_configured() {
    let config = PipelineConfig {
        poh: Some(PohConfig { partition: 3, max_recent_entries: 500, signing_key: None }),
        ..PipelineConfig::default()
    };
    let start: Option<ChainStart<Chain>> = create_poh_state(&config, None);
    assert!(matches!(
        start,
        Some(ChainStart::Genesis { partition: 3, max_recent_entries: 500 })
    ));
}

#[test]
fn create_poh_state_resumes_installed_chain_g11c() {
    let mut registry = InstalledPohChainRegistry::new();
    let shipped = Chain { partition: 3, sequence: 5 };
    let verified = verdict(&shipped, 3);
    PohChainInstallerImpl::new(PohVerifyMode::Verify)
        .install(&mut registry, "pl-resume", 3, &vec![1], Ok(shipped), verified)
        .unwrap();
    let config = PipelineConfig {
        pipeline_name: "pl-resume".to_string(),
        partition_id: 3,
        poh: Some(PohConfig { partition: 3, max_recent_entries: 64, signing_key: None }),
        ..PipelineConfig::default()
    };
    match create_poh_state(&config, Some(&mut registry)) {
        Some(ChainStart::Resume(chain)) => {
            assert_eq!(chain.partition, 3);
            assert_eq!(chain.sequence, 5);
        }
        _ => panic!("the installed chain is resumed"),
    }
    // The snapshot was taken: the next start begins anew.
    assert!(matches!(
        create_poh_state(&config, Some(&mut registry)),
        Some(ChainStart::Genesis { partition: 3, max_recent_entries: 64 })
    ));
}

#[test]
fn poh_append_empty_batch_noop() {
    let mut metrics = PipelineMetrics::new();
    assert!(poh_append_batch(&Vec::new()).is_none());
    poh_appended(false, &mut metrics);
    assert_eq!(metrics.poh_entries, 0);
}

#[test]
fn poh_append_batch_helper_works() {
    let output = |payload: &[u8]| Output {
        destination: "output".to_string(),
        key: None,
        payload: payload.to_vec(),
        headers: Vec::new(),
        source_ts: None,
        source_event_id: None,
        source_partition: None,
        source_offset: None,
        l2_seq: None,
    };
    let outputs = vec![output(b"hello"), output(b"world")];
    let payloads = poh_append_batch(&outputs).unwrap();
    assert_eq!(payloads, vec![&b"hello".to_vec(), &b"world".to_vec()]);
    let mut metrics = PipelineMetrics::new();
    poh_appended(true, &mut metrics);
    assert_eq!(metrics.poh_entries, 1);
}
