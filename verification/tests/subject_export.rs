use aeon_engine::error::AeonError;
use aeon_engine::subject_export::{
    selector_matches_any, ErasureSelector, L2BodyStore, SubjectExporter, SubjectId,
};
use aeon_engine::types::Event;

fn event_with_subjects(n: u64, subjects: &[&str]) -> Event {
    let mut ev = Event::new(
        n as u128,
        n as i64,
        "src".to_string(),
        0,
        format!("payload-{n}").into_bytes(),
    );
    for s in subjects {
        ev.metadata.push(("aeon.subject_id".to_string(), s.to_string()));
    }
    ev
}

/// A store of one segment.
fn store_of(events: Vec<Event>) -> L2BodyStore {
    L2BodyStore {
        segments: vec![Ok(events
            .into_iter()
            .enumerate()
            .map(|(i, e)| Ok((i as u64, e)))
            .collect())],
    }
}

fn collect_seqs(store: L2BodyStore, selector: &str) -> Vec<u64> {
    let sel = ErasureSelector::parse(selector).unwrap();
    SubjectExporter::new(store)
        .collect(&sel)
        .unwrap()
        .iter()
        .map(|r| r.seq)
        .collect()
}

#[test]
fn empty_store_yields_no_matches() {
    let exporter = SubjectExporter::new(store_of(vec![]));
    let sel = ErasureSelector::parse("tenant-a/user-1").unwrap();
    let out = exporter.collect(&sel).unwrap();
    assert!(out.is_empty());
}

#[test]
fn single_subject_match() {
    let store = store_of(vec![
        event_with_subjects(0, &["tenant-a/user-1"]),
        event_with_subjects(1, &["tenant-a/user-2"]),
        event_with_subjects(2, &["tenant-a/user-1"]),
    ]);
    let sel = ErasureSelector::parse("tenant-a/user-1").unwrap();
    let out = SubjectExporter::new(store).collect(&sel).unwrap();
    assert_eq!(out.len(), 2);
    assert_eq!(out[0].seq, 0);
    assert_eq!(out[1].seq, 2);
    assert_eq!(out[1].event.payload, b"payload-2");
}

#[test]
fn namespace_wildcard_match() {
    let store = store_of(vec![
        event_with_subjects(0, &["tenant-a/user-1"]),
        event_with_subjects(1, &["tenant-b/user-9"]),
        event_with_subjects(2, &["tenant-a/user-2"]),
    ]);
    assert_eq!(collect_seqs(store, "tenant-a/*"), vec![0, 2]);
}

#[test]
fn multi_subject_event_emitted_once() {
    let store = store_of(vec![event_with_subjects(
        0,
        &["tenant-a/user-1", "tenant-a/user-2"],
    )]);
    assert_eq!(collect_seqs(store, "tenant-a/*").len(), 1);
}

#[test]
fn events_without_subject_id_are_skipped() {
    let store = store_of(vec![
        event_with_subjects(0, &[]),
        event_with_subjects(1, &["tenant-a/user-1"]),
    ]);
    assert_eq!(collect_seqs(store, "tenant-a/user-1"), vec![1]);
}

#[test]
fn unknown_subject_yields_empty() {
    let store = store_of(vec![event_with_subjects(0, &["tenant-a/user-1"])]);
    assert!(collect_seqs(store, "tenant-a/ghost").is_empty());
}

#[test]
fn scan_spans_multiple_segments() {
    let segments = (0..5u64)
        .map(|i| {
            let subject = if i % 2 == 0 { "tenant-a/user-1" } else { "tenant-b/user-9" };
            Ok(vec![Ok((i, event_with_subjects(i, &[subject])))])
        })
        .collect();
    let store = L2BodyStore { segments };
    assert!(store.segments.len() >= 2);
    assert_eq!(collect_seqs(store, "tenant-a/user-1"), vec![0, 2, 4]);
}

#[test]
fn visitor_error_aborts_scan() {
    let store = store_of(
        (0..3u64)
            .map(|i| event_with_subjects(i, &["tenant-a/user-1"]))
            .collect(),
    );
    let sel = ErasureSelector::parse("tenant-a/user-1").unwrap();
    let mut seen: Vec<u64> = Vec::new();
    let err = SubjectExporter::new(store)
        .scan(&sel, |seq, _| {
            seen.push(seq);
            if seq == 1 {
                Err(AeonError::state("boom".to_string()))
            } else {
                Ok(())
            }
        })
        .unwrap_err();
    // Scan must short-circuit at the failing record, not keep walking.
    assert_eq!(seen, vec![0, 1]);
    assert!(err.message().contains("boom"));
}

#[test]
fn selector_matches_any_helper() {
    let sel = ErasureSelector::parse("tenant-a/*").unwrap();
    let subs = vec![
        SubjectId::parse("tenant-b/user-9").unwrap(),
        SubjectId::parse("tenant-a/user-1").unwrap(),
    ];
    assert!(selector_matches_any(&sel, &subs));

    let sel_miss = ErasureSelector::parse("tenant-c/*").unwrap();
    assert!(!selector_matches_any(&sel_miss, &subs));
}

#[test]
fn match_count_returned() {
    let store = store_of(vec![
        event_with_subjects(0, &["tenant-a/user-1"]),
        event_with_subjects(1, &["tenant-a/user-1"]),
        event_with_subjects(2, &["tenant-b/user-9"]),
    ]);
    let sel = ErasureSelector::parse("tenant-a/user-1").unwrap();
    let mut count = 0usize;
    let returned = SubjectExporter::new(store)
        .scan(&sel, |_, _| {
            count += 1;
            Ok(())
        })
        .unwrap();
    assert_eq!(returned, 2);
    assert_eq!(count, 2);
}

#[test]
fn a_record_that_cannot_be_read_ends_the_scan() {
    let store = L2BodyStore {
        segments: vec![
            Ok(vec![
                Ok((0, event_with_subjects(0, &["a/b"]))),
                Err(AeonError::state("bad crc".to_string())),
                Ok((2, event_with_subjects(2, &["a/b"]))),
            ]),
            Err(AeonError::state("not opened".to_string())),
        ],
    };
    let sel = ErasureSelector::parse("a/b").unwrap();
    let mut seen: Vec<u64> = Vec::new();
    let err = SubjectExporter::new(store)
        .scan(&sel, |seq, _| {
            seen.push(seq);
            Ok(())
        })
        .unwrap_err();
    assert_eq!(err.message(), "bad crc");
    assert_eq!(seen, vec![0]);
}

#[test]
fn a_segment_that_cannot_be_opened_ends_the_export() {
    let store = L2BodyStore {
        segments: vec![
            Ok(vec![Ok((0, event_with_subjects(0, &["a/b"])))]),
            Err(AeonError::state("not opened".to_string())),
        ],
    };
    let sel = ErasureSelector::parse("a/b").unwrap();
    let err = SubjectExporter::new(store).collect(&sel).unwrap_err();
    assert_eq!(err.message(), "not opened");
}

#[test]
fn malformed_subjects_hide_nothing() {
    let store = store_of(vec![event_with_subjects(0, &["nonsense", "/x", "a/", "a/b"])]);
    assert_eq!(collect_seqs(store, "a/b"), vec![0]);
}

#[test]
fn subjects_have_a_namespace_and_an_id() {
    let s = SubjectId::parse("tenant-a/user/1").unwrap();
    assert_eq!(s.namespace, "tenant-a");
    assert_eq!(s.id, "user/1");
    for bad in ["", "a", "/", "a/", "/b"] {
        assert!(SubjectId::parse(bad).is_none());
        assert!(ErasureSelector::parse(bad).is_none());
    }
}
