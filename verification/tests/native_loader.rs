use aeon_engine::native_loader::{
    stamp_outputs, NativeProcessor, NativeStep, DEFAULT_OUT_BUF_SIZE,
};
use aeon_engine::types::{Event, Output};

const EMPTY_SHA256: &str = "e3b0c44298fc1c149afbf4c8996fb92427ae41e4649b934ca495991b7852b855";
const ABC_SHA256: &str = "ba7816bf8f01cfea414140de5dae2223b00361a396177a9cb410ff61f20015ad";

fn names(list: &[&str]) -> Vec<String> {
    list.iter().map(|s| s.to_string()).collect()
}

fn output(source_ts: Option<i64>) -> Output {
    Output {
        destination: "out".to_string(),
        key: None,
        payload: b"p".to_vec(),
        headers: Vec::new(),
        source_ts,
        source_event_id: None,
        source_partition: None,
        source_offset: Some(1),
        l2_seq: None,
    }
}

#[test]
fn hashes_are_sha256() {
    assert_eq!(NativeProcessor::compute_hash("x.so", Ok(Vec::new())).unwrap(), EMPTY_SHA256);
    assert_eq!(NativeProcessor::compute_hash("x.so", Ok(b"abc".to_vec())).unwrap(), ABC_SHA256);
    assert_eq!(
        NativeProcessor::compute_hash("x.so", Err("denied".to_string())).unwrap_err().message(),
        "failed to read 'x.so': denied"
    );
}

#[test]
fn integrity_is_verified() {
    assert!(NativeProcessor::verify_integrity("x.so", Ok(b"abc".to_vec()), ABC_SHA256).is_ok());
    let err = NativeProcessor::verify_integrity("x.so", Ok(b"abc".to_vec()), "00").unwrap_err();
    assert_eq!(
        err.message(),
        format!("integrity check failed for 'x.so': expected SHA-256 00, got {ABC_SHA256}")
    );
    let err = NativeProcessor::verify_integrity("x.so", Err("gone".to_string()), "00").unwrap_err();
    assert_eq!(err.message(), "failed to read 'x.so' for integrity check: gone");
}

#[test]
fn a_tampered_artifact_is_not_loaded() {
    assert!(NativeProcessor::load_verified("x.so", Ok(b"abd".to_vec()), ABC_SHA256).is_err());
    let p = NativeProcessor::load_verified("x.so", Ok(b"abc".to_vec()), ABC_SHA256);
    assert!(p.is_ok());
}

#[test]
fn required_symbols_must_be_there() {
    let all = names(&[
        "aeon_process_batch",
        "aeon_process",
        "aeon_processor_destroy",
        "aeon_processor_create",
        "aeon_processor_version",
        "unrelated",
    ]);
    assert_eq!(
        NativeProcessor::validate("x.so", &all).unwrap(),
        names(&[
            "aeon_processor_create",
            "aeon_processor_destroy",
            "aeon_process",
            "aeon_process_batch",
            "aeon_processor_version",
        ])
    );
    let err = NativeProcessor::validate("x.so", &names(&["aeon_process"])).unwrap_err();
    assert_eq!(
        err.message(),
        "native processor 'x.so' missing required symbols: aeon_processor_create, \
         aeon_processor_destroy, aeon_process_batch"
    );
}

#[test]
fn a_small_buffer_grows_as_often_as_needed() {
    let mut p = NativeProcessor::load();
    assert!(matches!(p.after_call(0), NativeStep::Decode));
    let mut size = DEFAULT_OUT_BUF_SIZE;
    for _ in 0..5 {
        size *= 2;
        match p.after_call(-4) {
            NativeStep::Grow(grown) => assert_eq!(grown, size),
            _ => panic!("the buffer grows"),
        }
    }
    match p.after_call(7) {
        NativeStep::Fail(e) => assert_eq!(e.message(), "aeon_process returned error code 7"),
        _ => panic!("the call failed"),
    }
    let mut small = NativeProcessor::load_with_buffer(0);
    assert!(matches!(small.after_call(-4), NativeStep::Grow(1)));
    assert!(matches!(small.after_call(-4), NativeStep::Grow(2)));
    let mut large = NativeProcessor::load_with_buffer(isize::MAX as usize);
    match large.after_call(-4) {
        NativeStep::Fail(e) => assert_eq!(e.message(), "aeon_process returned error code -4"),
        _ => panic!("no allocation can be that large"),
    }
}

#[test]
fn outputs_are_stamped_with_their_event() {
    let mut event = Event::new(5, 0, "s".to_string(), 3, Vec::new());
    event.source_ts = Some(100);
    let stamped = stamp_outputs(vec![output(None), output(Some(9))], &event);
    assert_eq!(stamped.len(), 2);
    for o in &stamped {
        assert_eq!(o.source_event_id, Some(5));
        assert_eq!(o.source_partition, Some(3));
        assert_eq!(o.source_offset, None);
        assert_eq!(o.payload, b"p");
    }
    assert_eq!(stamped[0].source_ts, Some(100));
    assert_eq!(stamped[1].source_ts, Some(9));
}
