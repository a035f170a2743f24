use aeon_engine::processor::PassthroughProcessor;
use aeon_engine::types::Event;

#[test]
fn passthrough_preserves_payload() {
    let proc = PassthroughProcessor::new("output".to_string());
    let event = Event::new(0, 0, "src".to_string(), 0, b"hello".to_vec());
    let outputs = proc.process(event);
    assert_eq!(outputs.len(), 1);
    assert_eq!(outputs[0].payload, b"hello");
    assert_eq!(outputs[0].destination, "output");
}

#[test]
fn passthrough_batch() {
    let proc = PassthroughProcessor::new("out".to_string());
    let events: Vec<Event> = (0..100)
        .map(|i| Event::new(0, i, "src".to_string(), 0, format!("e{i}").into_bytes()))
        .collect();
    let outputs = proc.process_batch(events);
    assert_eq!(outputs.len(), 100);
    assert_eq!(outputs[99].payload, b"e99");
}

#[test]
fn passthrough_keeps_the_origin() {
    let proc = PassthroughProcessor::new("out".to_string());
    let mut event = Event::new(9, 1, "src".to_string(), 4, Vec::new());
    event.source_offset = Some(77);
    event.source_ts = Some(5);
    event.l2_seq = Some(12);
    let outputs = proc.process(event);
    assert_eq!(outputs[0].source_event_id, Some(9));
    assert_eq!(outputs[0].source_partition, Some(4));
    assert_eq!(outputs[0].source_offset, Some(77));
    assert_eq!(outputs[0].source_ts, Some(5));
    assert_eq!(outputs[0].l2_seq, Some(12));
}
