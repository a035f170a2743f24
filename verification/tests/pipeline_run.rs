use aeon_engine::error::AeonError;
use aeon_engine::pipeline::config::{
    join_partitions, partition_setups, CorePinning, DeliveryConfig, MultiPartitionConfig,
    PipelineConfig, PipelineCores,
};
use aeon_engine::pipeline::control::{PipelineControl, Swap};
use aeon_engine::pipeline::direct_run::{DirectAct, DirectEvent, DirectRun, FailureRules};
use aeon_engine::pipeline::failures::{handle_batch_failures, select_failed, FailureStep};
use aeon_engine::pipeline::metrics::PipelineMetrics;
use aeon_engine::pipeline::processor_run::{
    ProcessorAct, ProcessorEvent, ProcessorPhase, ProcessorRun,
};
use aeon_engine::pipeline::processor_task::{
    transfer_processor_state, DrainedStep, ProcessorStage, UpgradeAction,
};
use aeon_engine::pipeline::recovery::{
    eo2_gc_sweep, gc_outcome, load_recovery_plan, AckSeqTracker, CheckpointRecord, LedgerSnapshot,
};
use aeon_engine::pipeline::ring::{reading, ring, Handoff, Inlet, Outlet, Received};
use aeon_engine::pipeline::sink_run::{SinkAct, SinkEvent, SinkPhase, SinkRun};
use aeon_engine::pipeline::sink_task::{tuner_bounds, SinkTask};
use aeon_engine::pipeline::source_run::{
    SourceAct, SourceEvent, SourcePhase, SourceRun, Surroundings,
};
use aeon_engine::pipeline::source_task::{
    join_stages, on_fetched, reject_broker_coord_with_reassign, FetchStep, SourceStage,
    SourceStep, TaskEnd,
};
use aeon_engine::name_map::NameMap;
use aeon_engine::processor::PassthroughProcessor;
use aeon_engine::time::Duration;
use aeon_engine::types::{
    BatchFailurePolicy, BatchResult, DeliveryStrategy, Event, Output, SourceKind,
};
use std::collections::{HashSet, VecDeque};

// ── Sources, processors and sinks ─────────────────────────────────────

fn make_events(count: usize) -> Vec<Event> {
    (0..count)
        .map(|i| {
            Event::new(0, i as i64, "test".to_string(), 0, format!("event-{i}").into_bytes())
        })
        .collect()
}

fn make_events_unique(count: usize) -> Vec<Event> {
    let mut events = make_events(count);
    for (i, e) in events.iter_mut().enumerate() {
        e.id = 1000 + i as u128;
        e.source_offset = Some(i as i64);
    }
    events
}

/// Events whose ids repeat, with offsets.
fn make_events_with_ids(count: usize) -> Vec<Event> {
    let mut events = make_events(count);
    for (i, e) in events.iter_mut().enumerate() {
        e.id = u128::from_be_bytes([(i % 256) as u8; 16]);
        e.source_offset = Some(i as i64 * 100);
    }
    events
}

/// Hands out events in batches: those that it was made with, or new ones until it is stopped.
struct MemorySource {
    events: VecDeque<Event>,
    batch: usize,
    kind: SourceKind,
    endless: bool,
    made: u64,
}

impl MemorySource {
    fn new(events: Vec<Event>, batch: usize) -> Self {
        let events = events.into();
        MemorySource { events, batch, kind: SourceKind::Pull, endless: false, made: 0 }
    }

    fn continuous(batch: usize) -> Self {
        MemorySource { endless: true, ..MemorySource::new(Vec::new(), batch) }
    }

    fn next_batch(&mut self) -> Vec<Event> {
        if self.endless {
            for idx in self.made..self.made + self.batch as u64 {
                let payload = format!("event-{idx}").into_bytes();
                let id = u128::from(idx) + 1;
                let event = Event::new(id, idx as i64, "continuous".to_string(), 0, payload);
                self.events.push_back(event);
            }
            self.made += self.batch as u64;
        }
        let n = self.batch.min(self.events.len());
        self.events.drain(..n).collect()
    }
}

trait TestSink {
    fn write_batch(&mut self, outputs: Vec<Output>) -> BatchResult;
    fn flush(&mut self) {}
}

#[derive(Default)]
struct MemorySink {
    outputs: Vec<Output>,
}

impl TestSink for MemorySink {
    fn write_batch(&mut self, outputs: Vec<Output>) -> BatchResult {
        let ids = outputs.iter().filter_map(|o| o.source_event_id).collect();
        self.outputs.extend(outputs);
        BatchResult::all_delivered(ids)
    }
}

/// Delivers only when it is flushed.
#[derive(Default)]
struct DeferredSink {
    pending: Vec<Output>,
    delivered: u64,
}

impl TestSink for DeferredSink {
    fn write_batch(&mut self, outputs: Vec<Output>) -> BatchResult {
        let ids = outputs.iter().map(|o| o.source_event_id.unwrap_or(0)).collect();
        self.pending.extend(outputs);
        BatchResult::all_pending(ids)
    }

    fn flush(&mut self) {
        self.delivered += self.pending.len() as u64;
        self.pending.clear();
    }
}

/// Fails some events, until it has been called often enough.
struct PartialFailSink {
    fail_ids: HashSet<u128>,
    calls: u32,
    heal_after: u32,
    delivered: Vec<Output>,
}

impl PartialFailSink {
    fn new(fail_ids: Vec<u128>, heal_after: u32) -> Self {
        PartialFailSink {
            fail_ids: fail_ids.into_iter().collect(),
            calls: 0,
            heal_after,
            delivered: Vec::new(),
        }
    }
}

impl TestSink for PartialFailSink {
    fn write_batch(&mut self, outputs: Vec<Output>) -> BatchResult {
        let healed = self.calls >= self.heal_after;
        self.calls += 1;
        let mut delivered = Vec::new();
        let mut failed = Vec::new();
        for output in outputs {
            let id = output.source_event_id.unwrap();
            if !healed && self.fail_ids.contains(&id) {
                failed.push((id, "transient failure".to_string()));
            } else {
                delivered.push(id);
                self.delivered.push(output);
            }
        }
        BatchResult { delivered, pending: Vec::new(), failed }
    }
}

/// Puts a prefix before payloads, so that one sees which processor an output came from. Without a
/// prefix, events pass through.
#[derive(Clone, PartialEq, Debug)]
struct PrefixProcessor(&'static str);

impl PrefixProcessor {
    fn process(&self, events: Vec<Event>) -> Vec<Output> {
        let mut outputs = PassthroughProcessor::new("output".to_string()).process_batch(events);
        if !self.0.is_empty() {
            for o in outputs.iter_mut() {
                let mut payload = self.0.as_bytes().to_vec();
                payload.extend_from_slice(&o.payload);
                o.payload = payload;
                o.source_event_id = None;
                o.source_ts = None;
                o.source_partition = None;
                o.source_offset = None;
            }
        }
        outputs
    }
}

// ── Drivers ───────────────────────────────────────────────────────────

struct Delivery {
    strategy: DeliveryStrategy,
    interval: Duration,
    max_pending: usize,
    policy: BatchFailurePolicy,
    max_retries: u32,
}

/// Delivery as it is where nothing else is said.
fn default_delivery() -> Delivery {
    let config = DeliveryConfig::default();
    Delivery {
        strategy: config.strategy,
        interval: config.flush.interval,
        max_pending: config.flush.max_pending,
        policy: config.failure_policy,
        max_retries: config.max_retries,
    }
}

fn policy(policy: BatchFailurePolicy) -> Delivery {
    Delivery { policy, ..default_delivery() }
}

fn retries(max_retries: u32) -> Delivery {
    Delivery { max_retries, ..policy(BatchFailurePolicy::RetryFailed) }
}

/// Source, processor and sink in one loop, without rings and without a failure policy.
fn run<K: TestSink>(
    source: &mut MemorySource,
    processor: &PassthroughProcessor,
    sink: &mut K,
    metrics: &mut PipelineMetrics,
    shutdown: bool,
) -> Result<(), AeonError> {
    drive(DirectRun::new(source.kind, None), source, processor, sink, metrics, shutdown)
}

/// Source, processor and sink in one loop, without rings.
fn run_with_delivery<K: TestSink>(
    source: &mut MemorySource,
    processor: &PassthroughProcessor,
    sink: &mut K,
    delivery: &Delivery,
    metrics: &mut PipelineMetrics,
    shutdown: bool,
) -> Result<(), AeonError> {
    let rules = FailureRules { policy: delivery.policy, max_retries: delivery.max_retries };
    let direct = DirectRun::new(source.kind, Some(rules));
    drive(direct, source, processor, sink, metrics, shutdown)
}

fn drive<K: TestSink>(
    mut run: DirectRun,
    source: &mut MemorySource,
    processor: &PassthroughProcessor,
    sink: &mut K,
    metrics: &mut PipelineMetrics,
    shutdown: bool,
) -> Result<(), AeonError> {
    let mut event = DirectEvent::Looked { shutdown };
    loop {
        event = match run.next(event, metrics) {
            DirectAct::Look | DirectAct::Wait => DirectEvent::Looked { shutdown },
            DirectAct::Fetch => DirectEvent::Fetched(Ok(source.next_batch())),
            DirectAct::Process(events) => {
                DirectEvent::Processed(Ok(processor.process_batch(events)))
            }
            DirectAct::Write(outputs) | DirectAct::WriteAgain(outputs) => {
                DirectEvent::Written(Ok(sink.write_batch(outputs)))
            }
            DirectAct::Flush => {
                sink.flush();
                DirectEvent::Flushed(Ok(()))
            }
            DirectAct::End(outcome) => return outcome,
        };
    }
}

const CALM: Surroundings = Surroundings {
    shutdown: false,
    partitions_changed: false,
    paused: false,
    over_budget: false,
    frozen: false,
};

fn refused() -> AeonError {
    AeonError::State { message: "the store is full".to_string() }
}

/// Three stages with a ring between each two, taking turns.
struct Buffered<K> {
    source: MemorySource,
    source_run: SourceRun,
    processor_run: ProcessorRun<PrefixProcessor>,
    sink: K,
    run: SinkRun,
    to_processor: Option<Outlet<Event>>,
    from_source: Inlet<Event>,
    to_sink: Option<Outlet<Output>>,
    from_processor: Inlet<Output>,
    fetched: Option<Handoff<Event>>,
    processed: Option<Handoff<Output>>,
    control: PipelineControl<PrefixProcessor, MemorySource, K>,
    metrics: PipelineMetrics,
    clock: u64,
    flushes: u32,
    shadowed: usize,
    followed: usize,
    acked: usize,
    failed: usize,
    /// The events that the ledger follows and that are neither delivered nor failed.
    pending: HashSet<u128>,
    tuned: Option<Duration>,
    /// What the tuner has heard.
    tuning: Vec<(u64, u64)>,
    /// Whether the checkpoint store refuses what it is given.
    store_is_down: bool,
    /// What the processor answers with, where it fails.
    transport_error: Option<&'static str>,
    source_end: Option<TaskEnd>,
    processor_end: Option<TaskEnd>,
    shutdown: bool,
}

fn ended(outcome: Result<(), AeonError>) -> Option<TaskEnd> {
    Some(match outcome {
        Ok(()) => TaskEnd::Finished,
        Err(e) => TaskEnd::Failed(e),
    })
}

impl<K: TestSink> Buffered<K> {
    fn new(source: MemorySource, prefix: &'static str, sink: K, delivery: Delivery) -> Self {
        let config = PipelineConfig::default();
        assert_eq!(config.source_buffer_capacity, config.sink_buffer_capacity);
        Buffered::sized(config.source_buffer_capacity, source, prefix, sink, delivery)
    }

    /// With rings of this capacity.
    fn sized(
        capacity: usize,
        source: MemorySource,
        prefix: &'static str,
        sink: K,
        delivery: Delivery,
    ) -> Self {
        let (to_processor, from_source) = ring(capacity);
        let (to_sink, from_processor) = ring(capacity);
        Buffered {
            source_run: SourceRun::new(source.kind),
            source,
            processor_run: ProcessorRun::new(PrefixProcessor(prefix)),
            sink,
            run: SinkRun::new(
                SinkTask::new(
                    delivery.strategy,
                    delivery.interval,
                    delivery.max_pending,
                    delivery.policy,
                    true,
                    true,
                    false,
                    false,
                    0,
                ),
                delivery.max_retries,
            ),
            to_processor: Some(to_processor),
            from_source,
            to_sink: Some(to_sink),
            from_processor,
            fetched: None,
            processed: None,
            control: PipelineControl::new(),
            metrics: PipelineMetrics::new(),
            clock: 0,
            flushes: 0,
            shadowed: 0,
            followed: 0,
            acked: 0,
            failed: 0,
            pending: HashSet::new(),
            tuned: None,
            tuning: Vec::new(),
            store_is_down: false,
            transport_error: None,
            source_end: None,
            processor_end: None,
            shutdown: false,
        }
    }

    fn source_turn(&mut self) {
        let outlet = match &mut self.to_processor {
            Some(outlet) => outlet,
            None => return,
        };
        let mut event = match &mut self.fetched {
            Some(handoff) => {
                if !handoff.attempt(outlet) {
                    return;
                }
                self.fetched = None;
                SourceEvent::HandedOn
            }
            None => SourceEvent::Looked(Surroundings {
                shutdown: self.shutdown,
                paused: self.control.paused,
                ..CALM
            }),
        };
        loop {
            event = match self.source_run.next(event, &mut self.metrics).act {
                SourceAct::Reassign => SourceEvent::Reassigned(Ok(())),
                SourceAct::Fetch => SourceEvent::Fetched {
                    batch: Ok(self.source.next_batch()),
                    paused: self.control.paused,
                },
                SourceAct::HandOn(events) => {
                    self.fetched = Some(Handoff::new(events));
                    return;
                }
                SourceAct::Pause => {
                    if let Some(next) = self.control.take_source() {
                        self.source_run.swapped(next.kind);
                        self.source = next;
                    }
                    return;
                }
                SourceAct::End(outcome) => {
                    self.source_end = ended(outcome);
                    self.to_processor = None;
                    return;
                }
                _ => return,
            };
        }
    }

    /// Returns whether both rings were found empty while the pipeline is paused.
    fn processor_turn(&mut self) -> bool {
        let outlet = match &mut self.to_sink {
            Some(outlet) => outlet,
            None => return false,
        };
        let mut event = match &mut self.processed {
            Some(handoff) => {
                if !handoff.attempt(outlet) {
                    return false;
                }
                self.processed = None;
                ProcessorEvent::HandedOn
            }
            None => match self.processor_run.phase {
                ProcessorPhase::Drained => ProcessorEvent::Looked {
                    shutdown: self.shutdown,
                    paused: self.control.paused,
                    placed: self.control.take_processor(),
                },
                _ => ProcessorEvent::Turn {
                    shutdown: self.shutdown,
                    action: self.control.take_upgrade(),
                },
            },
        };
        loop {
            let next = self.processor_run.next(event, &mut self.metrics);
            let stage = &self.processor_run.stage;
            event = match next.act {
                ProcessorAct::Receive => match self.from_source.receive() {
                    Received::Batch(events) => ProcessorEvent::Received(events),
                    Received::Closed => ProcessorEvent::Closed,
                    Received::Empty => ProcessorEvent::Empty {
                        paused: self.control.paused && self.fetched.is_none(),
                        sink_slots: outlet.slots(),
                        sink_capacity: outlet.capacity(),
                    },
                },
                ProcessorAct::Shadow(events) => {
                    self.shadowed += stage.green.as_ref().unwrap().process(events).len();
                    ProcessorEvent::Shadowed
                }
                ProcessorAct::Process(events) => {
                    ProcessorEvent::Processed(match self.transport_error {
                        Some(message) => Err(AeonError::processor(message.to_string())),
                        None => Ok(stage.current.process(events)),
                    })
                }
                ProcessorAct::Try(events) => {
                    ProcessorEvent::Processed(Ok(stage.canary.as_ref().unwrap().process(events)))
                }
                ProcessorAct::HandOn(outputs) => {
                    self.processed = Some(Handoff::new(outputs));
                    return false;
                }
                ProcessorAct::Announce => return true,
                ProcessorAct::End(outcome) => {
                    self.processor_end = ended(outcome);
                    self.to_sink = None;
                    return false;
                }
                ProcessorAct::Turn | ProcessorAct::Wait | ProcessorAct::Look => return false,
            };
        }
    }

    /// Returns how the stage has ended, once it has.
    fn sink_turn(&mut self) -> Option<TaskEnd> {
        self.clock += 1_000_000;
        if let Some(next) = self.control.take_sink() {
            self.sink = next;
        }
        let mut event = match self.from_processor.receive() {
            Received::Batch(outputs) => SinkEvent::Received(outputs),
            Received::Empty => SinkEvent::Empty,
            Received::Closed => SinkEvent::Closed,
        };
        loop {
            assert!(self.run.has_room(&event));
            let step = self.run.next(event, self.clock, self.tuned, &mut self.metrics);
            self.followed += step.follow.len();
            self.pending.extend(step.follow.iter().map(|o| o.event_id));
            self.acked += step.acknowledge.len();
            for id in &step.acknowledge {
                self.pending.remove(id);
            }
            for (id, _) in &step.fail {
                self.pending.remove(id);
            }
            self.failed += step.fail.len();
            self.tuning.extend(step.tune);
            event = match step.act {
                SinkAct::Poll | SinkAct::Wait => return None,
                SinkAct::Write(outputs) | SinkAct::WriteAgain(outputs) => {
                    SinkEvent::Written(Ok(self.sink.write_batch(outputs)))
                }
                SinkAct::Flush => {
                    self.sink.flush();
                    self.flushes += 1;
                    SinkEvent::Flushed(Ok(()))
                }
                SinkAct::Checkpoint => {
                    assert!(self.run.checkpoint(None, None).is_some());
                    SinkEvent::Stored(if self.store_is_down { Err(refused()) } else { Ok(()) })
                }
                SinkAct::End(outcome) => return ended(outcome),
            };
        }
    }

    fn turns(&mut self, n: usize) {
        for _ in 0..n {
            self.source_turn();
            self.processor_turn();
            self.sink_turn();
        }
    }

    /// Takes turns until something is seen of the pipeline.
    fn until(&mut self, seen: impl Fn(&Self) -> bool) {
        for _ in 0..200 {
            if seen(self) {
                return;
            }
            self.turns(1);
        }
        panic!("nothing of it is seen");
    }

    /// Stops the source, and shuts down.
    fn stop(&mut self) {
        self.source.endless = false;
        self.shutdown = true;
        self.run();
    }

    fn run_to_end(&mut self) -> Result<(), AeonError> {
        loop {
            self.source_turn();
            self.processor_turn();
            if let Some(sink_end) = self.sink_turn() {
                while self.source_end.is_none() {
                    self.source_turn();
                }
                let source_end = self.source_end.take().unwrap();
                let processor_end = self.processor_end.take().unwrap();
                return join_stages(source_end, processor_end, sink_end);
            }
        }
    }

    fn run(&mut self) {
        self.run_to_end().unwrap();
    }

    /// Waits until nothing is under way, and then carries the swap out.
    fn swap(&mut self, mut swap: Swap<PrefixProcessor, MemorySource, K>) {
        for _ in 0..1000 {
            self.source_turn();
            if self.processor_turn() {
                self.control.drain_completed(&mut swap);
                self.processor_turn();
                self.source_turn();
                self.sink_turn();
                self.control.resume();
                return;
            }
            self.sink_turn();
        }
        panic!("the pipeline does not drain");
    }
}

fn unordered(interval: Duration, max_pending: usize) -> Delivery {
    Delivery {
        strategy: DeliveryStrategy::UnorderedBatch,
        interval,
        max_pending,
        ..default_delivery()
    }
}

// ── Without rings ─────────────────────────────────────────────────────

#[test]
fn direct_pipeline_passthrough() {
    let mut source = MemorySource::new(make_events(100), 32);
    let processor = PassthroughProcessor::new("output".to_string());
    let mut sink = MemorySink::default();
    let mut metrics = PipelineMetrics::new();
    run(&mut source, &processor, &mut sink, &mut metrics, false).unwrap();
    assert_eq!(sink.outputs.len(), 100);
    assert_eq!(metrics.events_received, 100);
    assert_eq!(metrics.events_processed, 100);
    assert_eq!(metrics.outputs_sent, 100);
}

#[test]
fn direct_pipeline_blackhole() {
    let mut source = MemorySource::new(make_events(10_000), 256);
    let processor = PassthroughProcessor::new("output".to_string());
    let mut sink = MemorySink::default();
    let mut metrics = PipelineMetrics::new();
    run(&mut source, &processor, &mut sink, &mut metrics, false).unwrap();
    assert_eq!(sink.outputs.len(), 10_000);
    assert_eq!(metrics.events_received, 10_000);
}

#[test]
fn direct_pipeline_preserves_payload() {
    let mut source = MemorySource::new(make_events(3), 10);
    let processor = PassthroughProcessor::new("out".to_string());
    let mut sink = MemorySink::default();
    let mut metrics = PipelineMetrics::new();
    run(&mut source, &processor, &mut sink, &mut metrics, false).unwrap();
    assert_eq!(sink.outputs[0].payload, b"event-0");
    assert_eq!(sink.outputs[1].payload, b"event-1");
    assert_eq!(sink.outputs[2].payload, b"event-2");
}

#[test]
fn direct_pipeline_empty_source() {
    let mut source = MemorySource::new(vec![], 10);
    let processor = PassthroughProcessor::new("out".to_string());
    let mut sink = MemorySink::default();
    let mut metrics = PipelineMetrics::new();
    run(&mut source, &processor, &mut sink, &mut metrics, false).unwrap();
    assert!(sink.outputs.is_empty());
    assert_eq!(metrics.events_received, 0);
}

#[test]
fn direct_pipeline_shutdown_signal() {
    let mut source = MemorySource::new(make_events(10_000), 10);
    let processor = PassthroughProcessor::new("out".to_string());
    let mut sink = MemorySink::default();
    let mut metrics = PipelineMetrics::new();
    run(&mut source, &processor, &mut sink, &mut metrics, true).unwrap();
    assert_eq!(sink.outputs.len(), 0);
}

// ── Failure policies ──────────────────────────────────────────────────

struct PolicyRun {
    result: Result<(), AeonError>,
    sink: PartialFailSink,
    metrics: PipelineMetrics,
}

fn policy_run(events: usize, fail: &[u128], heal_after: u32, d: Delivery) -> PolicyRun {
    policy_run_in_batches(32, events, fail, heal_after, d)
}

fn policy_run_in_batches(
    batch: usize,
    events: usize,
    fail: &[u128],
    heal_after: u32,
    d: Delivery,
) -> PolicyRun {
    let mut source = MemorySource::new(make_events_unique(events), batch);
    let processor = PassthroughProcessor::new("out".to_string());
    let fail_ids = fail.iter().map(|i| 1000 + i).collect();
    let mut sink = PartialFailSink::new(fail_ids, heal_after);
    let mut metrics = PipelineMetrics::new();
    let result = run_with_delivery(&mut source, &processor, &mut sink, &d, &mut metrics, false);
    PolicyRun { result, sink, metrics }
}

#[test]
fn fail_batch_policy_aborts_on_partial_failure() {
    // Fail the 3rd event; never heals.
    let run = policy_run(10, &[2], 999, policy(BatchFailurePolicy::FailBatch));
    let err = run.result.unwrap_err();
    assert!(err.message().contains("FailBatch"));
    assert_eq!(
        err.message(),
        "FailBatch: 1 events failed in batch, first: event \
         00000000-0000-0000-0000-0000000003ea: transient failure"
    );
    assert!(!err.is_retryable());
    assert_eq!(run.metrics.events_failed, 1);
}

#[test]
fn skip_to_dlq_policy_continues_on_failure() {
    let run = policy_run(10, &[2], 999, policy(BatchFailurePolicy::SkipToDlq));
    assert!(run.result.is_ok());
    assert_eq!(run.metrics.events_received, 10);
    assert_eq!(run.metrics.events_failed, 1);
    assert_eq!(run.sink.delivered.len(), 9);
}

#[test]
fn retry_failed_policy_retries_and_succeeds() {
    let run = policy_run(10, &[4], 1, retries(3));
    assert!(run.result.is_ok());
    assert_eq!(run.metrics.events_received, 10);
    assert_eq!(run.metrics.events_failed, 0);
    assert_eq!(run.metrics.events_retried, 1);
    assert_eq!(run.sink.delivered.len(), 10);
}

#[test]
fn retry_failed_policy_exhausts_retries() {
    let run = policy_run(10, &[0], 999, retries(2));
    assert!(run.result.is_ok());
    assert_eq!(run.metrics.events_failed, 1);
    assert_eq!(run.metrics.events_retried, 2);
    assert_eq!(run.sink.delivered.len(), 9);
}

#[test]
fn retry_failed_multiple_events_partial_heal() {
    let run = policy_run(20, &[3, 7, 15], 2, retries(3));
    assert!(run.result.is_ok());
    assert_eq!(run.metrics.events_received, 20);
    assert_eq!(run.metrics.events_failed, 0);
    assert_eq!(run.sink.delivered.len(), 20);
}

#[test]
fn no_failure_policy_overhead_when_all_succeed() {
    let run = policy_run_in_batches(64, 1000, &[], 0, retries(3));
    assert!(run.result.is_ok());
    assert_eq!(run.metrics.events_received, 1000);
    assert_eq!(run.metrics.events_failed, 0);
    assert_eq!(run.metrics.events_retried, 0);
    assert_eq!(run.sink.delivered.len(), 1000);
}

#[test]
fn without_retries_an_event_is_exhausted_at_once() {
    let outputs = PassthroughProcessor::new("o".to_string()).process_batch(make_events_unique(2));
    let failed = vec![(1001u128, "down".to_string())];
    let mut metrics = PipelineMetrics::new();
    let report = handle_batch_failures(
        outputs,
        &failed,
        BatchFailurePolicy::RetryFailed,
        0,
        &mut metrics,
    );
    assert!(matches!(report.step, FailureStep::Settled));
    assert_eq!(report.exhausted, vec![(1001, "retry exhausted: down".to_string())]);
    assert_eq!(metrics.events_failed, 1);
}

#[test]
fn only_outputs_of_failed_events_are_tried_again() {
    let mut outputs =
        PassthroughProcessor::new("o".to_string()).process_batch(make_events_unique(3));
    outputs[1].source_event_id = None;
    let kept = select_failed(
        outputs,
        &vec![(1000, "x".to_string()), (1001, "y".to_string()), (7, "z".to_string())],
    );
    assert_eq!(kept.len(), 1);
    assert_eq!(kept[0].source_event_id, Some(1000));
}

// ── With rings ────────────────────────────────────────────────────────

fn buffered<K: TestSink>(events: Vec<Event>, batch: usize, sink: K, d: Delivery) -> Buffered<K> {
    let mut pipeline = Buffered::new(MemorySource::new(events, batch), "", sink, d);
    pipeline.run();
    pipeline
}

#[test]
fn buffered_pipeline_passthrough() {
    let d = default_delivery();
    let p = buffered(make_events(1_000), 64, MemorySink::default(), d);
    assert_eq!(p.metrics.events_received, 1_000);
    assert_eq!(p.metrics.events_processed, 1_000);
    assert_eq!(p.metrics.outputs_sent, 1_000);
}

#[test]
fn buffered_pipeline_ordered_mode_zero_loss() {
    let d = default_delivery();
    let p = buffered(make_events(5_000), 128, MemorySink::default(), d);
    assert_eq!(p.metrics.events_received, 5_000);
    assert_eq!(p.metrics.events_processed, 5_000);
    assert_eq!(p.metrics.outputs_sent, 5_000);
    // Every event came through, in its order.
    assert_eq!(p.sink.outputs.len(), 5_000);
    for (i, o) in p.sink.outputs.iter().enumerate() {
        assert_eq!(o.payload, format!("event-{i}").into_bytes());
    }
}

#[test]
fn buffered_pipeline_batched_mode_zero_loss() {
    let d = unordered(Duration::from_millis(100), 1_000);
    let p = buffered(make_events(5_000), 128, MemorySink::default(), d);
    assert_eq!(p.metrics.events_received, 5_000);
    assert_eq!(p.metrics.events_processed, 5_000);
    assert_eq!(p.metrics.outputs_sent, 5_000);
}

#[test]
fn buffered_pipeline_batched_large_volume() {
    let d = unordered(Duration::from_millis(50), 10_000);
    let source = MemorySource::new(make_events(50_000), 512);
    let mut p = Buffered::sized(256, source, "", MemorySink::default(), d);
    p.run();
    assert_eq!(p.metrics.events_received, 50_000);
    assert_eq!(p.metrics.outputs_sent, 50_000);
}

#[test]
fn a_flush_comes_as_soon_as_enough_outputs_wait() {
    let d = unordered(Duration::from_secs(3_600), 10_000);
    let p = buffered(make_events(50_000), 512, DeferredSink::default(), d);
    assert_eq!((p.metrics.outputs_sent, p.sink.delivered), (50_000, 50_000));
    // Four while it runs, and one at the end.
    assert_eq!(p.flushes, 5);
}

#[test]
fn small_rings_hold_the_stages_back_and_lose_nothing() {
    for capacity in [1, 2, 5] {
        let source = MemorySource::new(make_events_unique(1_000), 7);
        let mut p = Buffered::sized(capacity, source, "", MemorySink::default(), default_delivery());
        // The source runs ahead until the ring is full.
        for _ in 0..20 {
            p.source_turn();
        }
        assert!(p.metrics.events_received <= 7 * (capacity as u64 + 1));
        p.run();
        assert_eq!(p.metrics.events_received, 1_000);
        assert_eq!(p.metrics.events_processed, 1_000);
        assert_eq!(p.metrics.outputs_sent, 1_000);
        for (i, o) in p.sink.outputs.iter().enumerate() {
            assert_eq!(o.payload, format!("event-{i}").into_bytes());
        }
    }
}

#[test]
fn buffered_pipeline_unordered_credits_metric_at_flush() {
    let d = unordered(Duration::from_millis(20), 1_000);
    let p = buffered(make_events(5_000), 128, DeferredSink::default(), d);
    // Sink actually delivered all events on flush(es).
    assert_eq!(p.sink.delivered, 5_000);
    // The metric must also agree.
    assert_eq!(p.metrics.events_received, 5_000);
    assert_eq!(p.metrics.events_processed, 5_000);
    assert_eq!(p.metrics.outputs_sent, 5_000);
}

#[test]
fn buffered_pipeline_with_delivery_ledger() {
    let d = default_delivery();
    let p = buffered(make_events_with_ids(500), 64, MemorySink::default(), d);
    assert_eq!(p.metrics.events_received, 500);
    assert_eq!(p.metrics.outputs_sent, 500);
    assert_eq!(p.pending.len(), 0, "all outputs should be acked");
    assert_eq!(p.failed, 0, "no failures expected");
    assert_eq!(p.followed, 500, "all 500 outputs tracked");
    assert_eq!(p.acked, 500, "all 500 outputs acked");
    assert_eq!(p.metrics.checkpoints_written, 1);
}

#[test]
fn buffered_pipeline_ledger_batched_mode() {
    let d = unordered(Duration::from_millis(50), 500);
    let p = buffered(make_events_with_ids(2_000), 128, MemorySink::default(), d);
    assert_eq!(p.metrics.outputs_sent, 2_000);
    assert_eq!(p.pending.len(), 0);
    assert_eq!(p.followed, 2_000);
    assert_eq!(p.acked, 2_000);
}

#[test]
fn buffered_pipeline_large_volume() {
    let source = MemorySource::new(make_events(50_000), 512);
    let mut p = Buffered::sized(256, source, "", MemorySink::default(), default_delivery());
    p.run();
    assert_eq!(p.metrics.events_received, 50_000);
    assert_eq!(p.metrics.outputs_sent, 50_000);
}

#[test]
fn every_output_counts_as_sent_or_failed() {
    let cases = [
        (policy(BatchFailurePolicy::SkipToDlq), 999, 3),
        (retries(2), 999, 3),
        (retries(0), 999, 3),
        (retries(3), 3, 0),
    ];
    for (d, heal_after, failed) in cases {
        let source = MemorySource::new(make_events_unique(100), 10);
        let sink = PartialFailSink::new(vec![1004, 1005, 1042], heal_after);
        let mut p = Buffered::new(source, "", sink, d);
        p.run();
        assert_eq!(p.metrics.events_failed, failed);
        assert_eq!(p.metrics.outputs_sent, 100 - failed);
        assert_eq!(p.sink.delivered.len() as u64, 100 - failed);
    }
}

#[test]
fn buffered_pipeline_with_auto_core_pinning() {
    // Too few cores, or as many as the stages need: the pipeline runs either way.
    let three = PipelineCores { source: 0, processor: 1, sink: 2 };
    assert_eq!(CorePinning::Auto.resolve(None), None);
    assert_eq!(CorePinning::Auto.resolve(Some(three)), Some(three));
    let p = buffered(make_events(1_000), 64, MemorySink::default(), default_delivery());
    assert_eq!(p.metrics.events_received, 1_000);
    assert_eq!(p.metrics.outputs_sent, 1_000);
}

/// Runs one pipeline for each partition, and joins them.
fn partition_runs<F: Fn() -> MemorySource>(
    count: usize,
    core_pinning: CorePinning,
    source: F,
) -> Vec<Buffered<MemorySink>> {
    let config = MultiPartitionConfig {
        partition_count: count,
        pipeline: PipelineConfig { core_pinning, ..PipelineConfig::default() },
        has_gate_registry: false,
    };
    let mut runs = Vec::new();
    let mut ends = Vec::new();
    for (i, setup) in partition_setups(&config, None).into_iter().enumerate() {
        assert_eq!(setup.partition_id as usize, i);
        assert!(!setup.has_write_gate && !setup.has_partition_reassign);
        let d = default_delivery();
        let mut p = Buffered::new(source(), "", MemorySink::default(), d);
        ends.push(ended(p.run_to_end()).unwrap());
        runs.push(p);
    }
    join_partitions(ends).unwrap();
    assert_eq!(runs.len(), count);
    runs
}

#[test]
fn multi_partition_pipeline_basic() {
    // 4 partitions, each with 500 events = 2000 total
    let runs = partition_runs(4, CorePinning::Disabled, || {
        MemorySource::new(make_events(500), 64)
    });
    assert_eq!(runs.iter().map(|p| p.metrics.events_received).sum::<u64>(), 2000);
    assert_eq!(runs.iter().map(|p| p.metrics.outputs_sent).sum::<u64>(), 2000);
}

#[test]
fn multi_partition_with_auto_core_pinning() {
    let runs = partition_runs(2, CorePinning::Auto, || MemorySource::new(make_events(100), 32));
    assert_eq!(runs.iter().map(|p| p.metrics.outputs_sent).sum::<u64>(), 200);
}

#[test]
fn run_buffered_rejects_broker_coord_with_partition_reassign() {
    let err = reject_broker_coord_with_reassign(true, true).unwrap_err();
    let msg = err.message();
    assert!(msg.contains("ConsumerMode::Group") && msg.contains("mutually exclusive"));
}

#[test]
fn run_buffered_allows_broker_coord_when_no_partition_reassign() {
    assert!(reject_broker_coord_with_reassign(true, false).is_ok());
    assert!(reject_broker_coord_with_reassign(false, true).is_ok());
}

#[test]
fn the_first_stage_that_fails_is_reported() {
    let failed = |m: &str| TaskEnd::Failed(AeonError::state(m.to_string()));
    assert!(join_stages(TaskEnd::Finished, TaskEnd::Finished, TaskEnd::Finished).is_ok());
    let both = join_stages(TaskEnd::Finished, failed("p"), failed("s")).unwrap_err();
    assert_eq!(both.message(), "p");
    let panicked = join_stages(TaskEnd::Panicked("x".into()), failed("p"), failed("s"));
    assert_eq!(panicked.unwrap_err().message(), "source task panicked: x");
    let last = join_stages(TaskEnd::Finished, TaskEnd::Finished, TaskEnd::Panicked("y".into()));
    assert_eq!(last.unwrap_err().message(), "sink task panicked: y");
}

// ── Swaps and upgrades while the pipeline runs ────────────────────────

fn prefixed(outputs: &[Output], prefix: &str) -> usize {
    outputs.iter().filter(|o| o.payload.starts_with(prefix.as_bytes())).count()
}

/// A pipeline that goes on until it is stopped.
fn managed(batch: usize, prefix: &'static str) -> Buffered<MemorySink> {
    let source = MemorySource::continuous(batch);
    Buffered::new(source, prefix, MemorySink::default(), default_delivery())
}

#[test]
fn managed_pipeline_runs_without_swap() {
    let p = buffered(make_events(100), 32, MemorySink::default(), default_delivery());
    assert_eq!(p.sink.outputs.len(), 100);
    assert_eq!(p.metrics.events_received, 100);
    assert_eq!(p.metrics.events_processed, 100);
}

#[test]
fn managed_pipeline_hot_swap_zero_loss() {
    let mut p = managed(10, "A:");
    p.until(|p| p.metrics.events_processed > 0);
    let pre_swap_count = p.metrics.events_processed;
    let swap = p.control.drain_and_swap(PrefixProcessor("B:"));
    p.swap(swap);
    // Nothing was under way when the processor changed.
    assert_eq!(p.sink.outputs.len() as u64, p.metrics.events_received);
    p.until(|p| prefixed(&p.sink.outputs, "B:") > 0);
    p.stop();
    assert!(
        p.metrics.events_processed > pre_swap_count,
        "should have processed more events after swap"
    );
    // No event is lost.
    assert_eq!(p.metrics.events_received, p.metrics.events_processed);
    let a_count = prefixed(&p.sink.outputs, "A:");
    let b_count = prefixed(&p.sink.outputs, "B:");
    assert!(a_count > 0, "should have A-prefixed outputs (pre-swap)");
    assert!(b_count > 0, "should have B-prefixed outputs (post-swap)");
    assert_eq!(a_count + b_count, p.sink.outputs.len(), "all outputs should be prefixed");
    assert_eq!(p.sink.outputs.len() as u64, p.metrics.events_received);
}

#[test]
fn managed_pipeline_source_swap() {
    let mut p = managed(5, "");
    p.until(|p| p.metrics.events_processed > 0);
    let pre_swap = p.metrics.events_processed;
    let swap = p.control.drain_and_swap_source(MemorySource::continuous(5));
    p.swap(swap);
    let at_swap = p.metrics.events_received;
    // The other source is in place, and starts with its first event.
    assert_eq!(p.source.made, 0);
    p.until(|p| p.metrics.events_processed > at_swap);
    assert!(p.metrics.events_processed > pre_swap, "should process events from source B");
    p.stop();
    assert_eq!(p.sink.outputs[at_swap as usize].payload, b"event-0");
    assert_eq!(p.metrics.events_received, at_swap + p.source.made);
    assert_eq!(p.metrics.outputs_sent, p.metrics.events_received);
}

#[test]
fn managed_pipeline_sink_swap() {
    let mut p = managed(5, "");
    p.until(|p| !p.sink.outputs.is_empty());
    let swap = p.control.drain_and_swap_sink(MemorySink::default());
    p.swap(swap);
    // The first sink holds everything that had been sent when it was replaced.
    let first = p.metrics.outputs_sent as usize;
    assert!(first > 0, "sink A should have collected outputs");
    p.until(|p| !p.sink.outputs.is_empty());
    p.stop();
    assert!(!p.sink.outputs.is_empty(), "sink B received outputs");
    let total_outputs = first + p.sink.outputs.len();
    assert_eq!(
        total_outputs,
        p.metrics.outputs_sent as usize,
        "zero output loss across swap"
    );
    assert_eq!(p.metrics.outputs_sent, p.metrics.events_received);
}

#[test]
fn managed_pipeline_blue_green_cutover() {
    let mut p = managed(10, "A:");
    p.until(|p| p.metrics.events_processed > 0);
    assert_eq!(prefixed(&p.sink.outputs, "A:"), p.sink.outputs.len());
    p.control.start_blue_green(PrefixProcessor("B:"));
    let count_after_install = p.sink.outputs.len();
    p.until(|p| p.sink.outputs.len() > count_after_install + 5 && p.shadowed > 0);
    // Shadow: the new processor is given events, and nothing of it comes out.
    assert_eq!(prefixed(&p.sink.outputs, "A:"), p.sink.outputs.len());
    p.control.cutover_blue_green();
    p.until(|p| prefixed(&p.sink.outputs, "B:") > 0);
    p.stop();
    assert_eq!(p.sink.outputs.len() as u64, p.metrics.events_received);
}

#[test]
fn managed_pipeline_blue_green_rollback() {
    let mut p = managed(10, "A:");
    p.until(|p| p.metrics.events_processed > 0);
    p.control.start_blue_green(PrefixProcessor("B:"));
    p.until(|p| p.shadowed > 0);
    p.control.rollback_upgrade();
    let count_after = p.sink.outputs.len();
    p.until(|p| p.sink.outputs.len() > count_after + 20);
    p.stop();
    assert_eq!(prefixed(&p.sink.outputs, "A:"), p.sink.outputs.len());
    assert_eq!(p.sink.outputs.len() as u64, p.metrics.events_received);
}

#[test]
fn managed_pipeline_canary_split() {
    let mut p = managed(100, "A:");
    p.until(|p| p.metrics.events_processed > 0);
    p.sink.outputs.clear();
    p.control.start_canary(PrefixProcessor("B:"), 50);
    p.until(|p| p.sink.outputs.len() > 200);
    let a_count = prefixed(&p.sink.outputs, "A:");
    let b_count = prefixed(&p.sink.outputs, "B:");
    assert!(a_count > 0, "baseline A should have outputs (got {a_count})");
    assert!(b_count > 0, "canary B should have outputs (got {b_count})");
    let total = a_count + b_count;
    assert!(a_count as f64 / total as f64 > 0.2, "A should have >20% of traffic");
    assert!(b_count as f64 / total as f64 > 0.2, "B should have >20% of traffic");
    p.stop();
}

#[test]
fn a_canary_at_half_gets_half_of_ids_that_run_on() {
    let source = MemorySource::new(make_events_unique(1_000), 10);
    let mut p = Buffered::new(source, "A:", MemorySink::default(), default_delivery());
    p.control.start_canary(PrefixProcessor("B:"), 50);
    p.run();
    let a = prefixed(&p.sink.outputs, "A:");
    let b = prefixed(&p.sink.outputs, "B:");
    assert_eq!((a, b), (500, 500));
}

#[test]
fn managed_pipeline_canary_complete() {
    let mut p = managed(10, "A:");
    p.until(|p| p.metrics.events_processed > 0);
    p.control.start_canary(PrefixProcessor("B:"), 50);
    p.turns(3);
    p.control.complete_canary();
    p.turns(3);
    p.sink.outputs.clear();
    p.until(|p| p.sink.outputs.len() > 50);
    assert!(!p.sink.outputs.is_empty(), "should have outputs after canary complete");
    assert_eq!(
        prefixed(&p.sink.outputs, "B:"),
        p.sink.outputs.len(),
        "all outputs after canary complete should be B-prefixed"
    );
    p.stop();
}

#[test]
fn a_later_action_replaces_one_that_waits() {
    let mut c: PipelineControl<PrefixProcessor, (), ()> = PipelineControl::new();
    c.start_canary(PrefixProcessor("B:"), 10);
    c.set_canary_pct(30);
    assert!(matches!(c.take_upgrade(), Some(UpgradeAction::SetCanaryPct(30))));
    assert!(c.take_upgrade().is_none());
}

#[test]
fn a_swap_leaves_the_control_as_it_was() {
    let mut c: PipelineControl<u8, u16, u32> = PipelineControl::new();
    let mut swap = c.drain_and_swap(9);
    assert!(c.paused);
    assert!(c.new_processor.is_none());
    c.drain_completed(&mut swap);
    assert_eq!(c.take_processor(), Some(9));
    c.resume();
    assert!(!c.paused);
    assert!(c.take_processor().is_none() && c.take_source().is_none() && c.take_sink().is_none());
    // A drain that is reported twice places nothing more.
    c.drain_completed(&mut swap);
    assert!(c.take_processor().is_none());
}

#[test]
fn the_processor_stage_upgrades_and_goes_back() {
    let mut stage = ProcessorStage::new(1u8);
    assert_eq!(stage.apply(UpgradeAction::StartBlueGreen(2)), None);
    assert_eq!(stage.apply(UpgradeAction::StartCanary(3, 40)), None);
    assert_eq!(stage.apply(UpgradeAction::Rollback), None);
    assert!(stage.green.is_none() && stage.canary.is_none() && stage.canary_pct == 0);
    assert_eq!(stage.apply(UpgradeAction::CutoverBlueGreen), None);
    assert_eq!(stage.current, 1);
    stage.apply(UpgradeAction::StartCanary(3, 40));
    assert_eq!(stage.apply(UpgradeAction::CompleteCanary), Some(1));
    assert_eq!(stage.current, 3);
    assert!(matches!(stage.while_drained(false, Some(5)), DrainedStep::Resume));
    assert!(matches!(stage.while_drained(true, None), DrainedStep::Wait));
    assert!(matches!(stage.while_drained(true, Some(5)), DrainedStep::Swapped(3)));
}

#[test]
fn state_is_carried_over_where_there_is_any() {
    let state = vec![(b"k".to_vec(), b"v".to_vec())];
    assert_eq!(transfer_processor_state::<()>(Ok(state.clone())), Some(state));
    assert_eq!(transfer_processor_state::<()>(Ok(Vec::new())), None);
    assert_eq!(transfer_processor_state(Err("no snapshot")), None);
}

#[test]
fn a_batch_is_split_by_event_id() {
    let mut stage = ProcessorStage::new(0u8);
    stage.apply(UpgradeAction::StartCanary(1, 30));
    let split = stage.route(make_events_unique(200));
    let canary = split.canary.unwrap();
    assert_eq!((split.active.len(), canary.len()), (140, 60));
    assert!(canary.iter().all(|e| e.id % 100 < 30));
    assert!(split.shadow.is_none());
    stage.apply(UpgradeAction::SetCanaryPct(0));
    let whole = stage.route(make_events(2));
    assert_eq!(whole.active.len(), 2);
    assert!(whole.canary.is_none());
}

#[test]
fn the_green_processor_is_given_the_same_events() {
    let mut stage = ProcessorStage::new(0u8);
    stage.apply(UpgradeAction::StartBlueGreen(1));
    let mut events = make_events_unique(3);
    events[1].metadata.push(("k".to_string(), "v".to_string()));
    let routed = stage.route(events);
    let shadow = routed.shadow.unwrap();
    assert_eq!(shadow.len(), 3);
    for (a, b) in routed.active.iter().zip(&shadow) {
        assert_eq!((a.id, a.timestamp, a.source_offset), (b.id, b.timestamp, b.source_offset));
        assert_eq!((&a.payload, &a.metadata, &a.source), (&b.payload, &b.metadata, &b.source));
    }
}

// ── Rings ─────────────────────────────────────────────────────────────

#[test]
fn rings_keep_order_and_say_when_they_are_full() {
    let (mut outlet, mut inlet) = ring::<Event>(2);
    assert_eq!((outlet.capacity(), outlet.slots()), (2, 2));
    assert!(matches!(inlet.receive(), Received::Empty));
    assert!(outlet.offer(make_events(2)).is_ok());
    assert_eq!(outlet.slots(), 1);
    assert!(outlet.offer(make_events(1)).is_ok());
    assert_eq!(outlet.offer(make_events(4)).unwrap_err().len(), 4);
    assert_eq!(outlet.slots(), 0);
    let mut handoff = Handoff::new(make_events(4));
    assert!(!handoff.attempt(&mut outlet));
    assert!(matches!(inlet.receive(), Received::Batch(b) if b.len() == 2));
    assert_eq!(outlet.slots(), 1);
    assert!(handoff.attempt(&mut outlet));
    drop(outlet);
    assert!(matches!(inlet.receive(), Received::Batch(b) if b.len() == 1));
    assert!(matches!(inlet.receive(), Received::Batch(b) if b.len() == 4));
    assert!(matches!(inlet.receive(), Received::Closed));
}

#[test]
fn a_ring_of_outputs_does_the_same() {
    let (mut outlet, mut inlet) = ring::<Output>(1);
    assert_eq!((outlet.capacity(), outlet.slots()), (1, 1));
    assert!(outlet.offer(three_outputs()).is_ok());
    assert_eq!(outlet.slots(), 0);
    assert_eq!(outlet.offer(three_outputs()).unwrap_err().len(), 3);
    match inlet.receive() {
        Received::Batch(b) => assert_eq!(b[2].source_event_id, Some(1002)),
        _ => panic!("the batch is lost"),
    }
    assert_eq!((outlet.capacity(), outlet.slots()), (1, 1));
    assert!(matches!(inlet.receive(), Received::Empty));
}

// ── Sources ───────────────────────────────────────────────────────────

#[test]
fn a_source_waits_while_the_store_is_over_its_budget() {
    let mut s = SourceStage::new();
    let step = |s: &mut SourceStage, shutdown, over, frozen| {
        let t = s.turn(shutdown, over, frozen);
        (t.step, t.relieved)
    };
    assert_eq!(step(&mut s, false, false, false), (SourceStep::Fetch, false));
    assert_eq!(step(&mut s, false, true, false), (SourceStep::Throttle, false));
    assert_eq!(step(&mut s, false, true, false), (SourceStep::Sleep, false));
    assert_eq!(step(&mut s, false, false, false), (SourceStep::Fetch, true));
    assert_eq!(step(&mut s, false, false, true), (SourceStep::Stop, false));
    assert_eq!(step(&mut s, true, true, false), (SourceStep::Stop, false));
    // A stage that waits when the shutdown begins fetches nothing more either.
    assert_eq!(step(&mut s, false, true, false), (SourceStep::Throttle, false));
    assert_eq!(step(&mut s, true, true, false), (SourceStep::Stop, true));
}

#[test]
fn empty_batches_end_only_pull_sources() {
    let mut m = PipelineMetrics::new();
    assert_eq!(on_fetched(0, SourceKind::Pull, false, &mut m), FetchStep::Stop);
    assert_eq!(on_fetched(0, SourceKind::Push, false, &mut m), FetchStep::Yield);
    assert_eq!(on_fetched(0, SourceKind::Poll, false, &mut m), FetchStep::Yield);
    assert_eq!(on_fetched(0, SourceKind::Pull, true, &mut m), FetchStep::Again);
    assert_eq!(on_fetched(3, SourceKind::Push, false, &mut m), FetchStep::Forward);
    assert_eq!(m.events_received, 3);
}

#[test]
fn a_managed_source_stops_and_pauses() {
    let mut s = SourceStage::new();
    assert_eq!(s.managed_turn(true, true, false, false).step, SourceStep::Stop);
    assert_eq!(s.managed_turn(false, true, true, true).step, SourceStep::Yield);
    assert_eq!(s.managed_turn(false, false, false, false).step, SourceStep::Fetch);
    // The body store and the write gate hold it back like any other.
    assert_eq!(s.managed_turn(false, false, true, false).step, SourceStep::Throttle);
    assert_eq!(s.managed_turn(false, true, true, false).step, SourceStep::Yield);
    let relieved = s.managed_turn(false, false, false, true);
    assert_eq!((relieved.step, relieved.relieved), (SourceStep::Stop, true));
}

#[test]
fn changed_partitions_reach_the_source_first() {
    let mut m = PipelineMetrics::new();
    let changed = Surroundings { partitions_changed: true, paused: true, ..CALM };
    let mut run = SourceRun::new(SourceKind::Pull);
    let next = run.next(SourceEvent::Looked(changed), &mut m);
    assert!(matches!(next.act, SourceAct::Reassign));
    let next = run.next(SourceEvent::Reassigned(Ok(())), &mut m);
    assert!(matches!(next.act, SourceAct::Look));
    let paused = Surroundings { paused: true, ..CALM };
    assert!(matches!(run.next(SourceEvent::Looked(paused), &mut m).act, SourceAct::Pause));
    run.next(SourceEvent::Looked(changed), &mut m);
    let error = AeonError::State { message: "no such partition".to_string() };
    let next = run.next(SourceEvent::Reassigned(Err(error)), &mut m);
    assert!(matches!(next.act, SourceAct::End(Err(AeonError::State { .. }))));
    // A stage that is being shut down is not told.
    let mut run = SourceRun::new(SourceKind::Pull);
    let last = Surroundings { shutdown: true, ..changed };
    assert!(matches!(run.next(SourceEvent::Looked(last), &mut m).act, SourceAct::End(Ok(()))));
    assert_eq!(run.phase, SourcePhase::Ended);
}

#[test]
fn a_batch_is_handed_on_before_the_next_is_fetched() {
    let mut m = PipelineMetrics::new();
    let mut run = SourceRun::new(SourceKind::Push);
    assert!(matches!(run.next(SourceEvent::Looked(CALM), &mut m).act, SourceAct::Fetch));
    let batch = Ok(make_events(3));
    let next = run.next(SourceEvent::Fetched { batch, paused: true }, &mut m);
    assert!(matches!(next.act, SourceAct::HandOn(ref events) if events.len() == 3));
    assert_eq!(m.events_received, 3);
    assert!(matches!(run.next(SourceEvent::HandedOn, &mut m).act, SourceAct::Look));
    // A lull of a push source is not its end; that of the pull source in its place is.
    run.next(SourceEvent::Looked(CALM), &mut m);
    let empty = || SourceEvent::Fetched { batch: Ok(Vec::new()), paused: false };
    assert!(matches!(run.next(empty(), &mut m).act, SourceAct::Wait));
    run.swapped(SourceKind::Pull);
    run.next(SourceEvent::Looked(CALM), &mut m);
    assert!(matches!(run.next(empty(), &mut m).act, SourceAct::End(Ok(()))));
}

#[test]
fn a_throttled_source_sleeps_until_it_is_relieved() {
    let mut m = PipelineMetrics::new();
    let mut run = SourceRun::new(SourceKind::Push);
    let over = Surroundings { over_budget: true, ..CALM };
    assert!(matches!(run.next(SourceEvent::Looked(over), &mut m).act, SourceAct::Throttle));
    assert!(matches!(run.next(SourceEvent::Looked(over), &mut m).act, SourceAct::Sleep));
    let next = run.next(SourceEvent::Looked(CALM), &mut m);
    assert!(next.relieved && matches!(next.act, SourceAct::Fetch));
    let error = AeonError::Timeout { message: "late".to_string() };
    let next = run.next(SourceEvent::Fetched { batch: Err(error), paused: false }, &mut m);
    assert!(matches!(next.act, SourceAct::End(Err(AeonError::Timeout { .. }))));
}

// ── With rings ────────────────────────────────────────────────────────

fn plain_run(count: usize, batch: usize) -> Buffered<MemorySink> {
    let source = MemorySource::new(make_events(count), batch);
    let d = default_delivery();
    let mut p = Buffered::new(source, "", MemorySink::default(), d);
    p.run();
    p
}

#[test]
fn buffered_transport_pipeline_passthrough() {
    let p = plain_run(1_000, 64);
    assert_eq!(p.metrics.events_received, 1_000);
    assert_eq!(p.metrics.events_processed, 1_000);
    assert_eq!(p.metrics.outputs_sent, 1_000);
}

#[test]
fn buffered_transport_pipeline_large_volume() {
    let source = MemorySource::new(make_events(50_000), 512);
    let mut p = Buffered::sized(256, source, "", MemorySink::default(), default_delivery());
    p.run();
    assert_eq!(p.metrics.events_received, 50_000);
    assert_eq!(p.metrics.outputs_sent, 50_000);
}

#[test]
fn buffered_transport_pipeline_propagates_transport_error() {
    let source = MemorySource::new(make_events(100), 16);
    let mut p = Buffered::new(source, "", MemorySink::default(), default_delivery());
    p.transport_error = Some("transport forced failure");
    let result = p.run_to_end();
    assert_eq!(result.unwrap_err().message(), "transport forced failure");
    assert_eq!(p.metrics.outputs_sent, 0);
    assert_eq!(p.metrics.events_processed, 0);
}

#[test]
fn multi_partition_pipeline_with_ledgers() {
    let events_per_partition = 300;
    let partition_count = 3;
    let mut total = 0;
    let runs = partition_runs(partition_count, CorePinning::Disabled, || {
        MemorySource::new(make_events_with_ids(events_per_partition), 64)
    });
    for (i, p) in runs.iter().enumerate() {
        total += p.metrics.outputs_sent;
        assert_eq!(p.pending.len(), 0, "partition {i} has pending events");
        assert_eq!(p.followed, events_per_partition, "partition {i} tracked wrong count");
        assert_eq!(p.acked, events_per_partition, "partition {i} acked wrong count");
    }
    assert_eq!(total, 900);
}

#[test]
fn shutdown_drains_what_was_received() {
    let mut p = Buffered::new(
        MemorySource::new(make_events_unique(1_000), 10),
        "",
        MemorySink::default(),
        default_delivery(),
    );
    // Batches wait in the ring to the processor, and nothing has been processed.
    for _ in 0..6 {
        p.source_turn();
    }
    let received = p.metrics.events_received;
    assert!(received >= 30 && p.metrics.events_processed == 0);
    p.shutdown = true;
    p.run();
    assert_eq!(p.metrics.events_received, received);
    assert_eq!(p.metrics.events_processed, received);
    assert_eq!(p.metrics.outputs_sent, received);
    assert_eq!(p.sink.outputs.len() as u64, received);
    assert_eq!((p.pending.len(), p.flushes), (0, 1));
}

#[test]
fn a_refused_checkpoint_does_not_count() {
    let mut p = Buffered::new(
        MemorySource::new(make_events_unique(100), 10),
        "",
        DeferredSink::default(),
        unordered(Duration::from_millis(1), 10),
    );
    p.store_is_down = true;
    p.run();
    assert!(p.flushes > 1);
    assert_eq!(p.metrics.outputs_sent, 100);
    assert_eq!(p.metrics.checkpoints_written, 0);
    // What the refused ones were to cover is still there for the next.
    assert_eq!(p.run.task.delivered_since_checkpoint, 100);

    let mut m = PipelineMetrics::new();
    let mut run = sink_run(BatchFailurePolicy::SkipToDlq, DeliveryStrategy::OrderedBatch, 0);
    run.next(SinkEvent::Received(three_outputs()), 0, None, &mut m);
    run.next(SinkEvent::Written(Ok(one_failed(1002))), 2_000_000, None, &mut m);
    run.checkpoint(None, None);
    run.next(SinkEvent::Stored(Err(refused())), 2_000_000, None, &mut m);
    assert_eq!(m.checkpoints_written, 0);
    let step = run.next(SinkEvent::Empty, 3_000_000, None, &mut m);
    assert!(matches!(step.act, SinkAct::Checkpoint));
    let record = run.checkpoint(None, None).unwrap();
    assert_eq!((record.delivered_count, record.failed_count), (2, 1));
    run.next(SinkEvent::Stored(Ok(())), 3_000_000, None, &mut m);
    assert_eq!((m.checkpoints_written, run.task.delivered_since_checkpoint), (1, 0));
}

#[test]
fn run_buffered_without_poh_no_entries() {
    let p = plain_run(50, 16);
    assert_eq!(p.metrics.events_processed, 50);
    assert_eq!(p.metrics.poh_entries, 0, "poh_entries should be 0 when PoH is disabled");
}

// ── The processor stage, step by step ─────────────────────────────────

fn turned(run: &mut ProcessorRun<u8>, action: Option<UpgradeAction<u8>>) {
    let mut m = PipelineMetrics::new();
    let upgraded = action.is_some();
    let next = run.next(ProcessorEvent::Turn { shutdown: false, action }, &mut m);
    assert_eq!(next.upgraded, upgraded);
    assert!(matches!(next.act, ProcessorAct::Receive));
}

fn outputs_of(name: &str, count: usize) -> Vec<Output> {
    PassthroughProcessor::new(name.to_string()).process_batch(make_events(count))
}

#[test]
fn a_split_batch_is_processed_once_and_its_outputs_keep_their_order() {
    let mut m = PipelineMetrics::new();
    let mut run = ProcessorRun::new(1u8);
    turned(&mut run, Some(UpgradeAction::StartBlueGreen(2)));
    run.phase = ProcessorPhase::Turning;
    turned(&mut run, Some(UpgradeAction::StartCanary(3, 50)));
    let mut events = make_events(4);
    for (i, e) in events.iter_mut().enumerate() {
        e.id = 30 * i as u128;
    }
    // Ids 0 and 30 go to the canary, 60 and 90 stay.
    let next = run.next(ProcessorEvent::Received(events), &mut m);
    match next.act {
        ProcessorAct::Shadow(shadow) => {
            assert_eq!(shadow.iter().map(|e| e.id).collect::<Vec<u128>>(), vec![60, 90]);
        }
        _ => panic!("the green processor is passed over"),
    }
    match run.next(ProcessorEvent::Shadowed, &mut m).act {
        ProcessorAct::Process(active) => {
            assert_eq!(active.iter().map(|e| e.id).collect::<Vec<u128>>(), vec![60, 90]);
        }
        _ => panic!("the active processor is passed over"),
    }
    match run.next(ProcessorEvent::Processed(Ok(outputs_of("a", 2))), &mut m).act {
        ProcessorAct::Try(share) => {
            assert_eq!(share.iter().map(|e| e.id).collect::<Vec<u128>>(), vec![0, 30]);
        }
        _ => panic!("the canary is passed over"),
    }
    assert_eq!(m.events_processed, 0);
    match run.next(ProcessorEvent::Processed(Ok(outputs_of("c", 2))), &mut m).act {
        ProcessorAct::HandOn(outputs) => {
            let names: Vec<&str> = outputs.iter().map(|o| o.destination.as_str()).collect();
            assert_eq!(names, vec!["a", "a", "c", "c"]);
        }
        _ => panic!("the outputs are not handed on"),
    }
    assert_eq!(m.events_processed, 4);
    assert!(matches!(run.next(ProcessorEvent::HandedOn, &mut m).act, ProcessorAct::Turn));
    // The canary becomes the active one, and the state of the other goes to it.
    let complete = Some(UpgradeAction::CompleteCanary);
    let next = run.next(ProcessorEvent::Turn { shutdown: false, action: complete }, &mut m);
    assert_eq!((next.retired, run.stage.current), (Some(1), 3));
}

#[test]
fn nobody_is_given_an_empty_share() {
    let mut m = PipelineMetrics::new();
    let mut run = ProcessorRun::new(1u8);
    turned(&mut run, Some(UpgradeAction::StartCanary(3, 100)));
    let next = run.next(ProcessorEvent::Received(make_events(2)), &mut m);
    assert!(matches!(next.act, ProcessorAct::Try(ref share) if share.len() == 2));
    let error = AeonError::Processor { message: "bad".to_string() };
    let next = run.next(ProcessorEvent::Processed(Err(error)), &mut m);
    assert!(matches!(next.act, ProcessorAct::End(Err(AeonError::Processor { .. }))));
    assert_eq!(m.events_processed, 0);
}

#[test]
fn a_drained_stage_waits_for_its_replacement() {
    let mut m = PipelineMetrics::new();
    let mut run = ProcessorRun::new(1u8);
    turned(&mut run, None);
    let busy = ProcessorEvent::Empty { paused: true, sink_slots: 3, sink_capacity: 4 };
    assert!(matches!(run.next(busy, &mut m).act, ProcessorAct::Wait));
    turned(&mut run, None);
    let drained = ProcessorEvent::Empty { paused: true, sink_slots: 4, sink_capacity: 4 };
    assert!(matches!(run.next(drained, &mut m).act, ProcessorAct::Announce));
    let looked = |paused, placed| ProcessorEvent::Looked { shutdown: false, paused, placed };
    let next = run.next(looked(true, None), &mut m);
    assert!(matches!(next.act, ProcessorAct::Look));
    let next = run.next(looked(true, Some(9)), &mut m);
    assert!(next.swapped && matches!(next.act, ProcessorAct::Wait));
    assert_eq!((next.retired, run.stage.current), (Some(1), 9));
    // A shutdown ends the wait, and then nothing but the end of the ring ends the stage.
    turned(&mut run, None);
    let drained = ProcessorEvent::Empty { paused: true, sink_slots: 4, sink_capacity: 4 };
    run.next(drained, &mut m);
    let last = ProcessorEvent::Looked { shutdown: true, paused: true, placed: None };
    assert!(matches!(run.next(last, &mut m).act, ProcessorAct::Wait));
    let action = Some(UpgradeAction::StartBlueGreen(7));
    let next = run.next(ProcessorEvent::Turn { shutdown: true, action }, &mut m);
    assert!(matches!(next.act, ProcessorAct::Receive));
    assert!(!next.upgraded && run.stage.green.is_none());
    assert!(matches!(run.next(ProcessorEvent::Closed, &mut m).act, ProcessorAct::End(Ok(()))));
    let mut run = ProcessorRun::new(1u8);
    turned(&mut run, None);
    assert!(matches!(run.next(ProcessorEvent::Closed, &mut m).act, ProcessorAct::End(Ok(()))));
}

#[test]
fn without_rules_outputs_that_fail_are_passed_over() {
    let mut m = PipelineMetrics::new();
    let mut run = DirectRun::new(SourceKind::Push, None);
    run.next(DirectEvent::Looked { shutdown: false }, &mut m);
    run.next(DirectEvent::Fetched(Ok(make_events(3))), &mut m);
    run.next(DirectEvent::Processed(Ok(outputs_of("o", 3))), &mut m);
    let act = run.next(DirectEvent::Written(Ok(one_failed(1001))), &mut m);
    assert!(matches!(act, DirectAct::Look));
    assert_eq!((m.events_processed, m.outputs_sent, m.events_failed), (3, 2, 0));
    run.next(DirectEvent::Looked { shutdown: false }, &mut m);
    assert!(matches!(run.next(DirectEvent::Fetched(Ok(Vec::new())), &mut m), DirectAct::Wait));
    assert!(matches!(run.next(DirectEvent::Looked { shutdown: true }, &mut m), DirectAct::Flush));
    assert!(matches!(run.next(DirectEvent::Flushed(Ok(())), &mut m), DirectAct::End(Ok(()))));
}

// ── Acknowledgements, checkpoints, recovery ───────────────────────────

#[test]
fn the_watermark_rises_with_delivered_events() {
    let mut task = SinkTask::new(
        DeliveryStrategy::OrderedBatch,
        Duration::from_millis(1),
        10,
        BatchFailurePolicy::RetryFailed,
        true,
        true,
        true,
        true,
        0,
    );
    assert!(task.keeps_outputs());
    assert!(task.has_room(5));
    let mut outputs =
        PassthroughProcessor::new("o".to_string()).process_batch(make_events_unique(3));
    for (i, o) in outputs.iter_mut().enumerate() {
        o.l2_seq = Some(40 + i as u64);
    }
    let batch = task.begin_batch(&outputs);
    assert_eq!(batch.entries.len(), 3);
    assert_eq!(batch.entries[2].offset, 2);
    let mut metrics = PipelineMetrics::new();
    let result = BatchResult {
        delivered: vec![1001, 1000],
        pending: Vec::new(),
        failed: vec![(1002, "no".to_string())],
    };
    let report = task.batch_written(&batch, &result, &mut metrics);
    assert_eq!(report.advance, Some(41));
    assert!(report.has_failures);
    task.failures_handled(1);
    let again = task.batch_written(&batch, &BatchResult::all_delivered(vec![1000]), &mut metrics);
    assert_eq!(again.advance, None);
    assert_eq!(task.max_acked_seq, 41);
    let after = task.after_batch(batch.count, 5_000_000, None);
    assert!(after.sweep && after.checkpoint && !after.flush);

    let mut tracker = AckSeqTracker::new();
    tracker.record_ack("s", 41);
    let ledger = LedgerSnapshot { offsets: vec![(0, 9)], pending: vec![1002] };
    let record = task.checkpoint(Some(ledger), Some(&tracker)).unwrap();
    task.checkpoint_answered(&Err(refused()), &mut metrics);
    assert_eq!(metrics.checkpoints_written, 0);
    assert!(task.final_checkpoint_due());
    task.checkpoint_answered(&Ok(()), &mut metrics);
    assert_eq!((record.delivered_count, record.failed_count), (3, 1));
    assert_eq!(record.pending_event_ids, vec![1002]);
    assert_eq!(record.per_sink_ack_seq.get("s"), Some(&41));
    assert_eq!(metrics.checkpoints_written, 1);
    assert!(!task.final_checkpoint_due());
}

#[test]
fn a_ring_is_closed_only_when_nothing_came_out_of_it_after_its_outlet_was_gone() {
    let batch = || Some(vec![1u8]);
    assert!(matches!(reading(batch(), false, None), Received::Batch(_)));
    assert!(matches!(reading::<u8>(None, false, None), Received::Empty));
    assert!(matches!(reading(None, true, batch()), Received::Batch(_)));
    assert!(matches!(reading::<u8>(None, true, None), Received::Closed));
}

fn sink_run(policy: BatchFailurePolicy, strategy: DeliveryStrategy, max_retries: u32) -> SinkRun {
    let task = SinkTask::new(
        strategy,
        Duration::from_millis(1),
        10,
        policy,
        true,
        true,
        true,
        true,
        0,
    );
    SinkRun::new(task, max_retries)
}

fn three_outputs() -> Vec<Output> {
    let mut outputs =
        PassthroughProcessor::new("o".to_string()).process_batch(make_events_unique(3));
    for (i, o) in outputs.iter_mut().enumerate() {
        o.l2_seq = Some(40 + i as u64);
    }
    outputs
}

fn one_failed(id: u128) -> BatchResult {
    let delivered = vec![1000, 1001, 1002].into_iter().filter(|d| *d != id).collect();
    BatchResult { delivered, pending: Vec::new(), failed: vec![(id, "no".to_string())] }
}

#[test]
fn a_sink_that_fails_ends_the_stage_and_fails_the_batch() {
    let mut m = PipelineMetrics::new();
    let mut run = sink_run(BatchFailurePolicy::SkipToDlq, DeliveryStrategy::OrderedBatch, 0);
    let step = run.next(SinkEvent::Received(three_outputs()), 0, None, &mut m);
    assert_eq!(step.follow.len(), 3);
    assert!(matches!(step.act, SinkAct::Write(ref o) if o.len() == 3));
    let error = AeonError::Timeout { message: "slow".to_string() };
    let step = run.next(SinkEvent::Written(Err(error)), 0, None, &mut m);
    assert_eq!(step.fail.len(), 3);
    assert_eq!(step.fail[1], (1001, "slow".to_string()));
    assert!(matches!(step.act, SinkAct::End(Err(AeonError::Timeout { .. }))));
    assert!(matches!(run.phase, SinkPhase::Ended));
}

#[test]
fn failed_outputs_are_written_again_until_attempts_run_out() {
    let mut m = PipelineMetrics::new();
    let mut run = sink_run(BatchFailurePolicy::RetryFailed, DeliveryStrategy::OrderedBatch, 2);
    run.next(SinkEvent::Received(three_outputs()), 0, None, &mut m);
    let step = run.next(SinkEvent::Written(Ok(one_failed(1002))), 0, None, &mut m);
    assert_eq!(step.acknowledge, vec![1000, 1001]);
    assert_eq!(step.fail, vec![(1002, "no".to_string())]);
    assert_eq!(step.advance, Some(41));
    match step.act {
        SinkAct::WriteAgain(outputs) => {
            assert_eq!(outputs.len(), 1);
            assert_eq!(outputs[0].source_event_id, Some(1002));
        }
        _ => panic!("the output is not written again"),
    }
    let failed = || BatchResult {
        delivered: Vec::new(),
        pending: Vec::new(),
        failed: vec![(1002, "still no".to_string())],
    };
    let step = run.next(SinkEvent::Written(Ok(failed())), 0, None, &mut m);
    assert!(matches!(step.act, SinkAct::WriteAgain(_)));
    assert!(step.exhausted.is_empty());
    let step = run.next(SinkEvent::Written(Ok(failed())), 0, None, &mut m);
    assert_eq!(step.exhausted, vec![(1002, "retry exhausted: still no".to_string())]);
    assert!(step.sweep);
    assert!(matches!(step.act, SinkAct::Poll));
    assert_eq!((m.outputs_sent, m.events_retried, m.events_failed), (2, 2, 1));
    assert_eq!(run.task.failed_since_checkpoint, 1);
}

#[test]
fn a_failed_batch_ends_the_stage() {
    let mut m = PipelineMetrics::new();
    let mut run = sink_run(BatchFailurePolicy::FailBatch, DeliveryStrategy::OrderedBatch, 2);
    run.next(SinkEvent::Received(three_outputs()), 0, None, &mut m);
    let step = run.next(SinkEvent::Written(Ok(one_failed(1001))), 0, None, &mut m);
    match step.act {
        SinkAct::End(Err(e)) => assert!(e.message().starts_with("FailBatch: 1 events failed")),
        _ => panic!("the stage goes on"),
    }
    assert!(!step.sweep && step.tune.is_none());
}

#[test]
fn a_stage_that_waits_for_delivery_makes_checkpoints_by_the_clock() {
    let mut m = PipelineMetrics::new();
    let mut run = sink_run(BatchFailurePolicy::SkipToDlq, DeliveryStrategy::OrderedBatch, 0);
    run.next(SinkEvent::Received(three_outputs()), 0, None, &mut m);
    let step = run.next(SinkEvent::Written(Ok(one_failed(1002))), 999_999, None, &mut m);
    assert!(matches!(step.act, SinkAct::Poll));
    let step = run.next(SinkEvent::Empty, 999_999, None, &mut m);
    assert!(matches!(step.act, SinkAct::Wait));
    let step = run.next(SinkEvent::Empty, 1_000_000, None, &mut m);
    assert!(matches!(step.act, SinkAct::Checkpoint));
    let record = run.checkpoint(None, None).unwrap();
    assert_eq!((record.delivered_count, record.failed_count), (2, 1));
    let step = run.next(SinkEvent::Stored(Ok(())), 1_000_001, None, &mut m);
    assert!(matches!(step.act, SinkAct::Wait));
    assert!(!step.sweep && !step.recover);
    assert_eq!(run.task.last_flush, 1_000_001);
    assert_eq!(m.checkpoints_written, 1);
}

#[test]
fn a_flush_credits_what_waited_and_a_clean_end_leaves_nothing() {
    let mut m = PipelineMetrics::new();
    let mut run = sink_run(BatchFailurePolicy::SkipToDlq, DeliveryStrategy::UnorderedBatch, 0);
    let pending = || BatchResult::all_pending(vec![1000, 1001, 1002]);
    for _ in 0..3 {
        run.next(SinkEvent::Received(three_outputs()), 0, None, &mut m);
        let step = run.next(SinkEvent::Written(Ok(pending())), 0, None, &mut m);
        assert!(matches!(step.act, SinkAct::Poll));
        assert!(step.acknowledge.is_empty());
    }
    // The tuned interval, where there is one, takes the place of the configured one.
    let tuned = Some(Duration::from_millis(5));
    let step = run.next(SinkEvent::Empty, 1_500_000, tuned, &mut m);
    assert!(matches!(step.act, SinkAct::Wait));
    run.next(SinkEvent::Received(three_outputs()), 0, None, &mut m);
    let step = run.next(SinkEvent::Written(Ok(pending())), 0, None, &mut m);
    assert!(matches!(step.act, SinkAct::Flush));
    assert_eq!(step.tune, Some((12, 0)));
    assert_eq!(m.outputs_sent, 0);
    let step = run.next(SinkEvent::Flushed(Ok(())), 0, None, &mut m);
    assert_eq!(step.acknowledge.len(), 12);
    assert!(matches!(step.act, SinkAct::Checkpoint));
    assert_eq!(m.outputs_sent, 12);
    assert_eq!(run.checkpoint(None, None).unwrap().delivered_count, 12);
    let step = run.next(SinkEvent::Stored(Ok(())), 7, None, &mut m);
    assert!(step.sweep);
    assert!(matches!(step.act, SinkAct::Poll));
    assert_eq!((run.task.pending_count, run.task.last_flush), (0, 7));

    run.next(SinkEvent::Received(three_outputs()), 8, None, &mut m);
    run.next(SinkEvent::Written(Ok(pending())), 8, None, &mut m);
    let step = run.next(SinkEvent::Closed, 8, None, &mut m);
    assert!(matches!(step.act, SinkAct::Flush));
    assert!(step.tune.is_none());
    let step = run.next(SinkEvent::Flushed(Ok(())), 8, None, &mut m);
    assert!(matches!(step.act, SinkAct::Checkpoint));
    run.checkpoint(None, None);
    let step = run.next(SinkEvent::Stored(Ok(())), 8, None, &mut m);
    assert!(step.sweep);
    assert!(matches!(step.act, SinkAct::End(Ok(()))));
    assert!(run.task.pending_ids.is_empty());
    assert_eq!(m.outputs_sent, 15);
}

#[test]
fn a_stage_that_did_nothing_ends_without_a_checkpoint() {
    let mut m = PipelineMetrics::new();
    let mut run = sink_run(BatchFailurePolicy::SkipToDlq, DeliveryStrategy::UnorderedBatch, 0);
    run.next(SinkEvent::Closed, 0, None, &mut m);
    let step = run.next(SinkEvent::Flushed(Ok(())), 0, None, &mut m);
    assert!(matches!(step.act, SinkAct::End(Ok(()))));
    let mut run = sink_run(BatchFailurePolicy::SkipToDlq, DeliveryStrategy::UnorderedBatch, 0);
    run.next(SinkEvent::Closed, 0, None, &mut m);
    let error = AeonError::State { message: "gone".to_string() };
    let step = run.next(SinkEvent::Flushed(Err(error)), 0, None, &mut m);
    assert!(matches!(step.act, SinkAct::End(Err(AeonError::State { .. }))));
}

#[test]
fn the_store_is_asked_to_recover_with_every_sixteenth_flush() {
    let mut task = SinkTask::new(
        DeliveryStrategy::UnorderedBatch,
        Duration::from_millis(1),
        10,
        BatchFailurePolicy::SkipToDlq,
        false,
        false,
        false,
        false,
        0,
    );
    let asked: Vec<usize> = (1..=40).filter(|i| task.flush_done(*i as u64)).collect();
    assert_eq!(asked, vec![16, 32]);
}

#[test]
fn recovery_plan_dispatches_to_source_on_pipeline_start() {
    let mut acks = NameMap::new();
    acks.insert("sink".to_string(), 42u64);
    let record = CheckpointRecord {
        checkpoint_id: 0,
        source_offsets: Vec::new(),
        pending_event_ids: Vec::new(),
        delivered_count: 10,
        failed_count: 0,
        per_sink_ack_seq: acks,
    };
    let plan = load_recovery_plan::<()>(Some(Ok(Some(record)))).unwrap();
    assert_eq!(plan.l2_replay_start_seq, 42);
    assert!(load_recovery_plan::<()>(None).is_none());
    assert!(load_recovery_plan::<()>(Some(Err(()))).is_none());
}

#[test]
fn sweeps_reach_as_far_as_the_slowest_sink() {
    let mut tracker = AckSeqTracker::new();
    tracker.record_ack("fast", 90);
    tracker.record_ack("slow", 30);
    let stores = vec![("p".to_string(), 3), ("q".to_string(), 4), ("p".to_string(), 5)];
    let sweep = eo2_gc_sweep(Some(&stores), "p", Some(&tracker)).unwrap();
    assert_eq!(sweep.up_to, 30);
    assert_eq!(sweep.partitions, vec![3, 5]);
    assert!(eo2_gc_sweep(None, "p", Some(&tracker)).is_none());
    assert!(eo2_gc_sweep(Some(&stores), "p", None).is_none());
    let outcome = gc_outcome(1000, 400, 50, 30);
    assert_eq!(outcome.budget_change, Some(-600));
}

#[test]
fn watermarks_never_go_back() {
    let mut tracker = AckSeqTracker::new();
    tracker.record_ack("s", 10);
    tracker.record_ack("s", 4);
    assert_eq!(tracker.ack_of("s"), Some(10));
    tracker.register_sink("s");
    assert_eq!(tracker.ack_of("s"), Some(10));
    tracker.register_sink("t");
    assert_eq!(tracker.min_across_sinks(), Some(0));
}

#[test]
fn buffered_pipeline_adaptive_flush() {
    let b = tuner_bounds(true, true, Duration::from_millis(100), 10, 5).unwrap();
    assert_eq!(b.start, Duration::from_millis(100));
    assert_eq!(b.min, Duration::from_millis(10));
    assert_eq!(b.max, Duration::from_millis(500));

    let source = MemorySource::new(make_events_with_ids(3_000), 128);
    let d = unordered(Duration::from_millis(100), 1_000);
    let mut p = Buffered::new(source, "", MemorySink::default(), d);
    p.tuned = Some(b.min);
    p.run();
    // All events delivered, zero loss
    assert_eq!(p.metrics.outputs_sent, 3_000);
    assert_eq!(p.pending.len(), 0);
    assert_eq!(p.followed, 3_000);
    assert_eq!(p.acked, 3_000);
    // The tuner hears of every flush but the last, and of every output written before it.
    assert_eq!(p.tuning.len() as u32, p.flushes - 1);
    assert!(p.tuning.len() > 2);
    assert!(p.tuning.iter().all(|(events, acked)| *events > 0 && acked <= events));
}

#[test]
fn a_stage_that_does_not_tune_itself_needs_no_bounds() {
    let long = Duration::from_secs(u64::MAX);
    assert!(tuner_bounds(false, true, long, 0, u32::MAX).is_none());
    assert!(tuner_bounds(true, false, long, 0, u32::MAX).is_none());
}

#[test]
fn buffered_pipeline_adaptive_without_ledger_falls_back() {
    assert!(tuner_bounds(true, false, Duration::from_millis(50), 10, 5).is_none());
    assert!(tuner_bounds(false, true, Duration::from_millis(50), 10, 5).is_none());
    let d = unordered(Duration::from_millis(50), 500);
    let p = buffered(make_events(1_000), 64, MemorySink::default(), d);
    assert_eq!(p.metrics.outputs_sent, 1_000);
}
