use aeon_engine::definition::{
    ProcessorType, ProcessorVersion, RegistryCommand, RegistryResponse, VersionStatus,
};
use aeon_engine::registry::{sha512_hex, ProcessorRegistry};

const NOW: i64 = 5000;

fn make_version(ver: &str, data: &[u8]) -> ProcessorVersion {
    ProcessorVersion {
        version: ver.into(),
        sha512: sha512_hex(data),
        size_bytes: data.len() as u64,
        processor_type: ProcessorType::Wasm,
        platform: "wasm32".into(),
        status: VersionStatus::Available,
        registered_at: 1000,
        registered_by: "test".into(),
        endpoint: None,
        max_batch_size: None,
    }
}

#[test]
fn register_and_list() {
    let mut reg = ProcessorRegistry::new();

    let data = b"fake wasm bytes";
    let ver = make_version("1.0.0", data);
    let resp = reg.register("my-proc", "A processor", ver, data, NOW).unwrap();

    match resp {
        RegistryResponse::ProcessorRegistered { name, version } => {
            assert_eq!(name, "my-proc");
            assert_eq!(version, "1.0.0");
        }
        _ => panic!("unexpected response"),
    }

    let list = reg.list();
    assert_eq!(list, vec!["my-proc"]);

    let record = reg.get("my-proc").unwrap();
    assert_eq!(record.versions.len(), 1);
    assert_eq!(record.latest_version().unwrap().version, "1.0.0");
}

#[test]
fn register_multiple_versions() {
    let mut reg = ProcessorRegistry::new();

    for ver in &["1.0.0", "1.1.0", "2.0.0"] {
        let data = format!("data-{ver}").into_bytes();
        let v = make_version(ver, &data);
        reg.register("proc", "desc", v, &data, NOW).unwrap();
    }

    let versions = reg.versions("proc").unwrap();
    assert_eq!(versions.len(), 3);

    let record = reg.get("proc").unwrap();
    assert_eq!(record.latest_version().unwrap().version, "2.0.0");
}

#[test]
fn delete_version() {
    let mut reg = ProcessorRegistry::new();

    let data = b"bytes";
    let ver = make_version("1.0.0", data);
    reg.register("del-test", "", ver, data, NOW).unwrap();

    assert_eq!(reg.count(), 1);

    reg.delete_version("del-test", "1.0.0", NOW).unwrap();
    assert_eq!(reg.count(), 0);
    assert!(reg.get("del-test").is_none());
}

#[test]
fn delete_active_version_fails() {
    let mut reg = ProcessorRegistry::new();

    let data = b"bytes";
    let mut ver = make_version("1.0.0", data);
    ver.status = VersionStatus::Active;
    reg.register("active-test", "", ver, data, NOW).unwrap();

    let result = reg.delete_version("active-test", "1.0.0", NOW);
    assert!(result.is_err());
    assert_eq!(reg.count(), 1);
}

#[test]
fn sha512_mismatch_rejected() {
    let mut reg = ProcessorRegistry::new();

    let data = b"real data";
    let mut ver = make_version("1.0.0", data);
    ver.sha512 = "wrong_hash".into();

    let result = reg.register("hash-test", "", ver, data, NOW);
    assert!(result.is_err());
    assert!(result.unwrap_err().message().starts_with("SHA-512 mismatch: expected wrong_hash, "));
    assert_eq!(reg.count(), 0);
}

#[test]
fn registry_snapshot_and_restore() {
    let mut reg = ProcessorRegistry::new();

    let data = b"bytes";
    let ver = make_version("1.0.0", data);
    reg.register("snap-test", "desc", ver, data, NOW).unwrap();

    let snapshot = reg.snapshot().clone();
    assert_eq!(snapshot.len(), 1);

    // Create a new registry and restore
    let mut reg2 = ProcessorRegistry::new();
    assert_eq!(reg2.count(), 0);

    reg2.restore(snapshot);
    assert_eq!(reg2.count(), 1);
    assert!(reg2.get("snap-test").is_some());
}

#[test]
fn get_nonexistent_returns_none() {
    let reg = ProcessorRegistry::new();

    assert!(reg.get("nonexistent").is_none());
    assert!(reg.versions("nonexistent").is_none());
}

#[test]
fn digests_are_sha512() {
    assert_eq!(
        sha512_hex(b"abc"),
        "ddaf35a193617abacc417349ae20413112e6fa4e89a97ea20a9eeee64b55d39a\
         2192992a274fc1a836ba3c23a3feebbd454d4423643ce80e2a9ac94fa54ca49f"
    );
    assert_eq!(sha512_hex(b"").len(), 128);
}

#[test]
fn artifacts_lie_by_name_and_version() {
    assert_eq!(ProcessorRegistry::artifact_path("p", "1.0.0"), "p/1.0.0");
}

#[test]
fn a_version_can_be_replaced_and_its_status_set() {
    let mut reg = ProcessorRegistry::new();
    reg.register("p", "first", make_version("1", b"a"), b"a", 1).unwrap();
    reg.register("p", "second", make_version("1", b"b"), b"b", 2).unwrap();
    let record = reg.get("p").unwrap();
    assert_eq!(record.description, "first");
    assert_eq!(record.created_at, 1);
    assert_eq!(record.updated_at, 2);
    assert_eq!(record.versions.len(), 1);
    assert_eq!(record.get_version("1").unwrap().sha512, sha512_hex(b"b"));
    let set = RegistryCommand::SetVersionStatus {
        name: "p".to_string(),
        version: "1".to_string(),
        status: VersionStatus::Archived,
    };
    reg.apply(set, 3);
    assert_eq!(reg.get("p").unwrap().get_version("1").unwrap().status, VersionStatus::Archived);
}

#[test]
fn unknown_versions_and_foreign_commands_are_refused() {
    let mut reg = ProcessorRegistry::new();
    let missing = RegistryCommand::DeleteVersion { name: "p".into(), version: "9".into() };
    match reg.apply(missing, NOW) {
        RegistryResponse::Error { message } => assert_eq!(message, "version p:9 not found"),
        _ => panic!("no such version"),
    }
    let foreign = RegistryCommand::DeletePipeline { name: "p".into() };
    match reg.apply(foreign, NOW) {
        RegistryResponse::Error { message } => {
            assert_eq!(message, "command not handled by ProcessorRegistry")
        }
        _ => panic!("not the registry's"),
    }
}
