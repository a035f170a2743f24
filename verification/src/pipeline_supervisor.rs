//! Which pipelines run on this node, and what it takes to start one.
use vstd::prelude::*;
use vstd::string::StrSliceExecFns;

use crate::definition::PipelineDefinition;
use crate::error::AeonError;
use crate::name_map::NameMap;
use crate::pipeline::config::{
    CorePinning, DeliveryConfig, FlushConfig, PipelineConfig, PohConfig,
};
use crate::poh_probe::{bad_key_text, key_of, no_registry_text, resolve_poh_signing_key, SecretLookup};
use crate::retention_probe::{
    hold_error, hold_time, parse_hold_duration, resolve_retention_plan, HoldTime, RetentionPlan,
};
use crate::text::{
    eq_ignore_case, join2, join3, join4, join5, law_case_is_that_of_ascii_letters, lists_text,
    same_ignoring_case, same_text, texts,
};
use crate::time::Duration;
use crate::types::{CheckpointBackend, DurabilityMode};

verus! {

/// The name of the processor that hands events through unchanged.
pub const IDENTITY_PROCESSOR: &'static str = "__identity";

/// The pipelines that run on a node, each with the handle `H` by which the runtime reaches it,
/// and what the node offers to pipelines: resources of the runtime, each of which is installed
/// once.
pub struct PipelineSupervisor<H, R> {
    pub running: NameMap<H>,
    pub ownership: Option<R>,
    pub poh_installed_chains: Option<R>,
    pub data_context_kek: Option<R>,
    pub l2_root: Option<String>,
    pub secret_registry: Option<R>,
    pub l3_checkpoint_store: Option<R>,
    pub fault_injector: Option<R>,
}

/// What became of the probes that the runtime makes before a pipeline is started: the refusal of
/// each, where it refuses. A probe that was not made since an earlier one refused counts as
/// passed.
#[derive(Debug)]
pub struct Probes {
    /// The refusal of encryption at rest, else whether there is a key to encrypt with.
    pub encryption: Result<bool, String>,
    pub erasure: Result<(), String>,
    pub compliance: Result<(), String>,
}

/// A pipeline that may be started.
#[derive(Debug)]
pub struct Admitted {
    /// The partitions that the source reads; none where the source decides itself.
    pub partitions: Vec<u16>,
    pub retention: RetentionPlan,
    pub encrypts_at_rest: bool,
}

/// Whether a pipeline may be started.
pub enum Admission<'a, H> {
    /// It runs already.
    AlreadyRunning(&'a H),
    Admitted(Admitted),
}

/// The refusal to start a pipeline, with the reason.
pub open spec fn refusal(name: Seq<char>, reason: Seq<char>) -> Seq<char> {
    "pipeline '"@ + name + "' refused to start: "@ + reason
}

fn refuse(name: &str, reason: &str) -> (r: AeonError)
    ensures
        r is Config,
        r.text() == refusal(name@, reason@),
{
    AeonError::config(join4("pipeline '", name, "' refused to start: ", reason))
}

/// The hold time of a pipeline denotes none.
pub open spec fn bad_hold(def: PipelineDefinition) -> bool {
    match def.durability.retention.l2_body.hold_after_ack {
        Some(s) => hold_time(s@) !is Span,
        None => false,
    }
}

/// What is wrong with a pipeline that does not run and may not be started: the first of what is
/// tested.
pub open spec fn objection(def: PipelineDefinition, probes: Probes) -> Option<Seq<char>> {
    if def.sources@.len() == 0 {
        Some("pipeline '"@ + def.name@ + "' has no sources"@)
    } else if def.sinks@.len() == 0 {
        Some("pipeline '"@ + def.name@ + "' has no sinks"@)
    } else if probes.encryption is Err {
        Some(refusal(def.name@, probes.encryption->Err_0@))
    } else if probes.erasure is Err {
        Some(refusal(def.name@, probes.erasure->Err_0@))
    } else if bad_hold(def) {
        Some(
            refusal(
                def.name@,
                hold_error(def.durability.retention.l2_body.hold_after_ack->0@),
            ),
        )
    } else if probes.compliance is Err {
        Some(refusal(def.name@, probes.compliance->Err_0@))
    } else {
        None
    }
}

/// Whether a retention plan is what a pipeline declares.
pub open spec fn retention_declared(def: PipelineDefinition, plan: RetentionPlan) -> bool {
    &&& plan.l3_max_records == def.durability.retention.l3_ack.max_records
    &&& match def.durability.retention.l2_body.hold_after_ack {
        Some(s) => plan.l2_hold_after_ack.wf() && hold_time(s@) == HoldTime::Span(
            plan.l2_hold_after_ack.total_nanos(),
        ),
        None => plan.l2_hold_after_ack == (Duration { secs: 0, nanos: 0 }),
    }
}

/// What a pipeline declares of its set-up, on top of the usual one.
pub open spec fn declared_config(def: PipelineDefinition, c: PipelineConfig) -> bool {
    &&& c.pipeline_name == def.name
    &&& c.source_buffer_capacity == 8192
    &&& c.sink_buffer_capacity == 8192
    &&& c.max_batch_size == 1024
    &&& c.core_pinning == CorePinning::Disabled
    &&& c.sink_name@ == "sink"@
    &&& declared_delivery(def, c.delivery)
    &&& c.poh is Some == def.poh.enabled
    &&& c.poh is Some ==> c.poh->0.partition == 0 && c.poh->0.max_recent_entries
        == def.poh.max_recent_entries
}

/// What a pipeline declares of its deliveries: the mode of durability, the backend and the
/// interval of checkpoints. Without durability there are no checkpoints. An interval that denotes
/// none is passed over.
pub open spec fn declared_delivery(def: PipelineDefinition, d: DeliveryConfig) -> bool {
    let usual = FlushConfig {
        interval: Duration { secs: 1, nanos: 0 },
        max_pending: 50_000,
        adaptive: false,
        adaptive_min_divisor: 10,
        adaptive_max_multiplier: 5,
    };
    &&& d.durability == def.durability.mode
    &&& d.checkpoint.backend == if def.durability.mode == DurabilityMode::Off {
        CheckpointBackend::Off
    } else {
        def.durability.checkpoint.backend
    }
    &&& d.checkpoint.retention == if def.durability.mode == DurabilityMode::Off {
        Duration { secs: 0, nanos: 0 }
    } else {
        Duration { secs: 86_400, nanos: 0 }
    }
    &&& d.checkpoint.dir is None
    &&& d.flush == (FlushConfig { interval: d.flush.interval, ..usual })
    &&& match def.durability.checkpoint.interval {
        Some(s) => match hold_time(s@) {
            HoldTime::Span(n) => d.flush.interval.wf() && d.flush.interval.total_nanos() == n,
            _ => d.flush == usual,
        },
        None => d.flush == usual,
    }
}

/// Derives the set-up of a pipeline from its declaration.
pub fn pipeline_config_for(def: &PipelineDefinition) -> (r: PipelineConfig)
    ensures
        declared_config(*def, r),
        r.poh is Some ==> r.poh->0.signing_key is None,
        r.partition_id == 0,
        r.retention_plan is None,
        r.l2_root is None,
        !r.has_l3_checkpoint_store,
        !r.has_eo2_metrics,
        !r.has_eo2_capacity,
        !r.shares_ack_tracker,
        !r.has_write_gate,
        !r.has_partition_reassign,
        !r.encrypts_at_rest,
        !r.has_poh_installed_chains,
        !r.has_poh_live_chains,
{
    let mut cfg = PipelineConfig::default();
    cfg.pipeline_name = def.name.clone();
    cfg.delivery.durability = def.durability.mode;
    cfg.delivery.checkpoint.backend = def.durability.checkpoint.backend;
    if let Some(interval) = &def.durability.checkpoint.interval {
        if let Ok(d) = parse_hold_duration(interval.as_str()) {
            cfg.delivery.flush.interval = d;
        }
    }
    if !def.durability.mode.requires_l2_body_store() {
        cfg.delivery.checkpoint.backend = CheckpointBackend::Off;
        cfg.delivery.checkpoint.retention = Duration::zero();
    }
    if def.poh.is_active() {
        cfg.poh = Some(
            PohConfig {
                partition: 0,
                max_recent_entries: def.poh.max_recent_entries as usize,
                signing_key: None,
            },
        );
    }
    cfg
}

/// The refusal of a durable pipeline on a node without a place for event bodies.
pub open spec fn no_l2_root(def: PipelineDefinition) -> Seq<char> {
    "pipeline '"@ + def.name@ + "' declares durability.mode="@ + def.durability.mode.text()
        + " which requires L2 body persistence, but no L2 root is installed on this supervisor (call PipelineSupervisor::install_l2_root from cmd_serve)"@
}

/// Why a pipeline that may be started cannot be set up: its signing key cannot be had, or the
/// node has no place for event bodies.
pub open spec fn setup_objection(
    def: PipelineDefinition,
    secret: SecretLookup,
    l2_root: Option<String>,
) -> Option<Seq<char>> {
    if def.poh.enabled && def.poh.signing_key_ref is Some && !(secret is Found) {
        match secret {
            SecretLookup::Failed(why) => Some(
                "poh probe: failed to resolve signing_key_ref '"@ + def.poh.signing_key_ref->0@
                    + "': "@ + why@,
            ),
            _ => Some(no_registry_text()),
        }
    } else if def.poh.enabled && def.poh.signing_key_ref is Some && key_of(
        secret->Found_0@,
    ) is None {
        Some(bad_key_text(def.poh.signing_key_ref->0@, secret->Found_0@.len()))
    } else if def.durability.mode.wants_l2() && l2_root is None {
        Some(no_l2_root(def))
    } else {
        None
    }
}

/// A name as a path below a directory. A name that is a path from the root stays as it is.
pub open spec fn path_below(dir: Seq<char>, name: Seq<char>) -> Seq<char> {
    if name.len() > 0 && name[0] == '/' {
        name
    } else if dir.len() == 0 || dir.last() == '/' {
        dir + name
    } else {
        dir + "/"@ + name
    }
}

fn join_path(dir: &str, name: &str) -> (r: String)
    ensures
        r@ == path_below(dir@, name@),
{
    if name.unicode_len() > 0 && name.get_char(0) == '/' {
        return name.to_owned();
    }
    let n = dir.unicode_len();
    if n == 0 || dir.get_char(n - 1) == '/' {
        return join2(dir, name);
    }
    join3(dir, "/", name)
}

/// The processor that a pipeline runs with.
#[derive(Debug)]
pub enum ProcessorPlan {
    /// The shared library at this path.
    Native(String),
    /// Events are handed through, to this destination.
    Passthrough(String),
}

/// Whether a tier calls for a shared library.
pub open spec fn is_native(tier: Option<Seq<char>>) -> bool {
    match tier {
        Some(t) => same_ignoring_case(t, "native"@),
        None => false,
    }
}

/// Where shared libraries are looked for, unless the node says otherwise.
pub open spec fn processors_dir(dir: Option<Seq<char>>) -> Seq<char> {
    match dir {
        Some(d) => d,
        None => "/app/processors"@,
    }
}

/// Decides which processor a pipeline runs with. `dir` is where the node keeps shared libraries,
/// `ext` what their names end in.
pub fn plan_processor(name: &str, tier: Option<&str>, dir: Option<&str>, ext: &str) -> (r:
    ProcessorPlan)
    ensures
        match r {
            ProcessorPlan::Native(path) => is_native(
                match tier {
                    Some(t) => Some(t@),
                    None => None,
                },
            ) && path@ == path_below(
                processors_dir(
                    match dir {
                        Some(d) => Some(d@),
                        None => None,
                    },
                ),
                name@ + "."@ + ext@,
            ),
            ProcessorPlan::Passthrough(destination) => !is_native(
                match tier {
                    Some(t) => Some(t@),
                    None => None,
                },
            ) && destination@ == "output"@,
        },
{
    let native = match tier {
        Some(t) => eq_ignore_case(t, "native"),
        None => false,
    };
    if native {
        let file = join3(name, ".", ext);
        let place = match dir {
            Some(d) => d,
            None => "/app/processors",
        };
        return ProcessorPlan::Native(join_path(place, file.as_str()));
    }
    ProcessorPlan::Passthrough("output".to_owned())
}

/// What became of a shared library: it is not there, it could not be loaded, or it was loaded.
pub enum LoadOutcome<P> {
    Missing,
    Failed(String),
    Loaded(P),
}

/// The processor in a shared library, or why there is none.
pub fn native_processor<P>(path: &str, outcome: LoadOutcome<P>) -> (r: Result<P, AeonError>)
    ensures
        match outcome {
            LoadOutcome::Loaded(p) => r == Ok::<P, AeonError>(p),
            LoadOutcome::Missing => r is Err && r->Err_0 is State && r->Err_0.text()
                == "supervisor: native processor artifact not found at "@ + path@
                + " (manifest declares processor.tier=native; bundle the cdylib into the runtime image or override the directory via AEON_PROCESSORS_DIR)"@,
            LoadOutcome::Failed(why) => r is Err && r->Err_0 is State && r->Err_0.text()
                == "supervisor: failed to load native processor from "@ + path@ + ": "@ + why@,
        },
{
    match outcome {
        LoadOutcome::Loaded(p) => Ok(p),
        LoadOutcome::Missing => Err(
            AeonError::state(
                join3(
                    "supervisor: native processor artifact not found at ",
                    path,
                    " (manifest declares processor.tier=native; bundle the cdylib into the runtime image or override the directory via AEON_PROCESSORS_DIR)",
                ),
            ),
        ),
        LoadOutcome::Failed(why) => Err(
            AeonError::state(
                join4(
                    "supervisor: failed to load native processor from ",
                    path,
                    ": ",
                    why.as_str(),
                ),
            ),
        ),
    }
}

fn install<T>(slot: &mut Option<T>, value: T, refusal_text: &str) -> (r: Result<(), AeonError>)
    ensures
        match *old(slot) {
            None => r is Ok && *final(slot) == Some(value),
            Some(_) => r is Err && r->Err_0 is State && r->Err_0.text() == refusal_text@
                && *final(slot) == *old(slot),
        },
{
    if slot.is_some() {
        return Err(AeonError::state(refusal_text.to_owned()));
    }
    *slot = Some(value);
    Ok(())
}

/// What is to be done so that exactly the desired pipelines run: which to stop, by name, and which
/// of the desired ones to start, by their places.
#[derive(Debug)]
pub struct ReconcilePlan {
    pub stop: Vec<String>,
    pub start: Vec<usize>,
}

/// Whether the `i`-th of the desired pipelines is to be started: it does not run and was not named
/// before.
pub open spec fn starts(running: Set<Seq<char>>, desired: Seq<Seq<char>>, i: int) -> bool {
    &&& 0 <= i < desired.len()
    &&& !running.contains(desired[i])
    &&& forall|j: int| 0 <= j < i ==> desired[j] != desired[i]
}

impl<H, R> PipelineSupervisor<H, R> {
    pub open spec fn wf(&self) -> bool {
        self.running.wf()
    }

    /// A node on which nothing runs and nothing is installed.
    pub fn new() -> (r: Self)
        ensures
            r.wf(),
            r.running@ == Map::<Seq<char>, H>::empty(),
            r.ownership is None,
            r.poh_installed_chains is None,
            r.data_context_kek is None,
            r.l2_root is None,
            r.secret_registry is None,
            r.l3_checkpoint_store is None,
            r.fault_injector is None,
    {
        PipelineSupervisor {
            running: NameMap::new(),
            ownership: None,
            poh_installed_chains: None,
            data_context_kek: None,
            l2_root: None,
            secret_registry: None,
            l3_checkpoint_store: None,
            fault_injector: None,
        }
    }

    /// Installs the store for checkpoints, once.
    pub fn set_l3_checkpoint_store(&mut self, store: R) -> (r: Result<(), AeonError>)
        ensures
            match old(self).l3_checkpoint_store {
                None => r is Ok && *final(self) == (PipelineSupervisor {
                    l3_checkpoint_store: Some(store),
                    ..*old(self)
                }),
                Some(_) => r is Err && r->Err_0 is State && r->Err_0.text()
                    == "PipelineSupervisor: L3 checkpoint store already installed"@
                    && *final(self) == *old(self),
            },
    {
        install(
            &mut self.l3_checkpoint_store,
            store,
            "PipelineSupervisor: L3 checkpoint store already installed",
        )
    }

    /// The means to inject faults, where they are installed.
    pub fn fault_injector(&self) -> (r: Option<&R>)
        ensures
            r == (match self.fault_injector {
                Some(x) => Some(&x),
                None => None,
            }),
    {
        self.fault_injector.as_ref()
    }

    /// Installs the means to inject faults, once.
    pub fn set_fault_injector(&mut self, injector: R) -> (r: Result<(), AeonError>)
        ensures
            match old(self).fault_injector {
                None => r is Ok && *final(self) == (PipelineSupervisor {
                    fault_injector: Some(injector),
                    ..*old(self)
                }),
                Some(_) => r is Err && r->Err_0 is State && r->Err_0.text()
                    == "PipelineSupervisor: fault injector already installed"@ && *final(self)
                    == *old(self),
            },
    {
        install(
            &mut self.fault_injector,
            injector,
            "PipelineSupervisor: fault injector already installed",
        )
    }

    /// Installs the node's secrets, once.
    pub fn set_secret_registry(&mut self, registry: R) -> (r: Result<(), AeonError>)
        ensures
            match old(self).secret_registry {
                None => r is Ok && *final(self) == (PipelineSupervisor {
                    secret_registry: Some(registry),
                    ..*old(self)
                }),
                Some(_) => r is Err && r->Err_0 is State && r->Err_0.text()
                    == "PipelineSupervisor: secret registry already installed"@ && *final(self)
                    == *old(self),
            },
    {
        install(
            &mut self.secret_registry,
            registry,
            "PipelineSupervisor: secret registry already installed",
        )
    }

    /// Installs the directory below which event bodies are kept, once.
    pub fn install_l2_root(&mut self, root: String) -> (r: Result<(), AeonError>)
        ensures
            match old(self).l2_root {
                None => r is Ok && *final(self) == (PipelineSupervisor {
                    l2_root: Some(root),
                    ..*old(self)
                }),
                Some(_) => r is Err && r->Err_0 is State && r->Err_0.text()
                    == "supervisor: L2 root already installed"@ && *final(self) == *old(self),
            },
    {
        install(&mut self.l2_root, root, "supervisor: L2 root already installed")
    }

    /// Installs the key that data at rest is encrypted with, once.
    pub fn set_data_context_kek(&mut self, kek: R) -> (r: Result<(), AeonError>)
        ensures
            match old(self).data_context_kek {
                None => r is Ok && *final(self) == (PipelineSupervisor {
                    data_context_kek: Some(kek),
                    ..*old(self)
                }),
                Some(_) => r is Err && r->Err_0 is State && r->Err_0.text()
                    == "PipelineSupervisor: data-context KEK already installed"@ && *final(self)
                    == *old(self),
            },
    {
        install(
            &mut self.data_context_kek,
            kek,
            "PipelineSupervisor: data-context KEK already installed",
        )
    }

    /// The key that data at rest is encrypted with, where it is installed.
    pub fn data_context_kek(&self) -> (r: Option<&R>)
        ensures
            r == (match self.data_context_kek {
                Some(x) => Some(&x),
                None => None,
            }),
    {
        self.data_context_kek.as_ref()
    }

    /// Installs the chains that were handed over to this node, once.
    pub fn set_poh_installed_chains(&mut self, registry: R) -> (r: Result<(), AeonError>)
        ensures
            match old(self).poh_installed_chains {
                None => r is Ok && *final(self) == (PipelineSupervisor {
                    poh_installed_chains: Some(registry),
                    ..*old(self)
                }),
                Some(_) => r is Err && r->Err_0 is State && r->Err_0.text()
                    == "PipelineSupervisor: poh_installed_chains registry already installed"@
                    && *final(self) == *old(self),
            },
    {
        install(
            &mut self.poh_installed_chains,
            registry,
            "PipelineSupervisor: poh_installed_chains registry already installed",
        )
    }

    /// Installs what knows the partitions of this node, once.
    pub fn set_ownership_resolver(&mut self, resolver: R) -> (r: Result<(), AeonError>)
        ensures
            match old(self).ownership {
                None => r is Ok && *final(self) == (PipelineSupervisor {
                    ownership: Some(resolver),
                    ..*old(self)
                }),
                Some(_) => r is Err && r->Err_0 is State && r->Err_0.text()
                    == "PipelineSupervisor: ownership resolver already installed"@
                    && *final(self) == *old(self),
            },
    {
        install(
            &mut self.ownership,
            resolver,
            "PipelineSupervisor: ownership resolver already installed",
        )
    }

    /// The partitions that the source of a pipeline reads: those that it declares; where it
    /// declares none, those of this node, where they are known and there are any.
    pub open spec fn source_partitions(
        &self,
        def: PipelineDefinition,
        owned: Option<Vec<u16>>,
    ) -> Seq<u16> {
        if def.sources@[0].partitions@.len() == 0 && self.ownership is Some && owned is Some {
            owned->0@
        } else {
            def.sources@[0].partitions@
        }
    }

    /// Decides whether a pipeline may be started, before anything is opened for it. `owned` are
    /// this node's partitions, as far as they are known.
    pub fn start(
        &self,
        def: &PipelineDefinition,
        owned: Option<Vec<u16>>,
        probes: Probes,
    ) -> (r: Result<Admission<'_, H>, AeonError>)
        requires
            self.wf(),
        ensures
            match r {
                Ok(Admission::AlreadyRunning(handle)) => self.running@.contains_key(def.name@)
                    && *handle == self.running@[def.name@],
                Ok(Admission::Admitted(a)) => {
                    &&& !self.running@.contains_key(def.name@)
                    &&& objection(*def, probes) is None
                    &&& a.partitions@ == self.source_partitions(*def, owned)
                    &&& retention_declared(*def, a.retention)
                    &&& probes.encryption == Ok::<bool, String>(a.encrypts_at_rest)
                },
                Err(e) => !self.running@.contains_key(def.name@) && e is Config && objection(
                    *def,
                    probes,
                ) == Some(e.text()),
            },
    {
        let name = def.name.as_str();
        if let Some(handle) = self.running.get(name) {
            return Ok(Admission::AlreadyRunning(handle));
        }
        if def.sources.len() == 0 {
            return Err(AeonError::config(join3("pipeline '", name, "' has no sources")));
        }
        if def.sinks.len() == 0 {
            return Err(AeonError::config(join3("pipeline '", name, "' has no sinks")));
        }
        let declared = &def.sources[0].partitions;
        let partitions = match owned {
            Some(list) => if declared.len() == 0 && self.ownership.is_some() {
                list
            } else {
                copy_partitions(declared)
            },
            None => copy_partitions(declared),
        };
        let encrypts_at_rest = match probes.encryption {
            Ok(on) => on,
            Err(why) => {
                return Err(refuse(name, why.as_str()));
            },
        };
        if let Err(why) = probes.erasure {
            return Err(refuse(name, why.as_str()));
        }
        let retention = match resolve_retention_plan(&def.durability.retention) {
            Ok(plan) => plan,
            Err(e) => {
                return Err(refuse(name, e.message()));
            },
        };
        if let Err(why) = probes.compliance {
            return Err(refuse(name, why.as_str()));
        }
        Ok(Admission::Admitted(Admitted { partitions, retention, encrypts_at_rest }))
    }

    /// Sets up a pipeline that may be started. `secret` is what its signing key's reference leads
    /// to, `watched` whether changes of this node's partitions can be followed.
    pub fn configure(
        &self,
        def: &PipelineDefinition,
        admitted: Admitted,
        secret: SecretLookup,
        watched: bool,
    ) -> (r: Result<PipelineConfig, AeonError>)
        ensures
            match r {
                Ok(c) => {
                    &&& setup_objection(*def, secret, self.l2_root) is None
                    &&& declared_config(*def, c)
                    &&& c.partition_id == 0
                    &&& c.has_write_gate
                    &&& c.poh is Some ==> match c.poh->0.signing_key {
                        Some(key) => def.poh.signing_key_ref is Some && secret is Found && key_of(
                            secret->Found_0@,
                        ) == Some(key@),
                        None => def.poh.signing_key_ref is None,
                    }
                    &&& c.l2_root == if def.durability.mode.wants_l2() {
                        self.l2_root
                    } else {
                        None
                    }
                    &&& c.encrypts_at_rest == admitted.encrypts_at_rest
                    &&& c.retention_plan == Some(admitted.retention)
                    &&& c.has_l3_checkpoint_store == (self.l3_checkpoint_store is Some)
                    &&& c.has_eo2_metrics
                    &&& !c.has_eo2_capacity
                    &&& !c.shares_ack_tracker
                    &&& c.has_poh_installed_chains == (self.poh_installed_chains is Some)
                    &&& c.has_poh_live_chains
                    &&& c.has_partition_reassign == (self.ownership is Some && watched)
                },
                Err(e) => e is State && setup_objection(*def, secret, self.l2_root) == Some(
                    e.text(),
                ),
            },
    {
        let mut cfg = pipeline_config_for(def);
        cfg.partition_id = 0;
        cfg.has_write_gate = true;
        if def.poh.is_active() {
            match resolve_poh_signing_key(&def.poh, secret) {
                Ok(signing_key) => {
                    cfg.poh = Some(
                        PohConfig {
                            partition: 0,
                            max_recent_entries: def.poh.max_recent_entries as usize,
                            signing_key,
                        },
                    );
                },
                Err(e) => {
                    return Err(e);
                },
            }
        }
        if def.durability.mode.requires_l2_body_store() {
            match &self.l2_root {
                Some(root) => {
                    cfg.l2_root = Some(root.clone());
                },
                None => {
                    return Err(
                        AeonError::state(
                            join5(
                                "pipeline '",
                                def.name.as_str(),
                                "' declares durability.mode=",
                                def.durability.mode.as_text(),
                                " which requires L2 body persistence, but no L2 root is installed on this supervisor (call PipelineSupervisor::install_l2_root from cmd_serve)",
                            ),
                        ),
                    );
                },
            }
        }
        cfg.encrypts_at_rest = admitted.encrypts_at_rest;
        cfg.retention_plan = Some(admitted.retention);
        cfg.has_l3_checkpoint_store = self.l3_checkpoint_store.is_some();
        cfg.has_eo2_metrics = true;
        cfg.has_poh_installed_chains = self.poh_installed_chains.is_some();
        cfg.has_poh_live_chains = true;
        cfg.has_partition_reassign = self.ownership.is_some() && watched;
        Ok(cfg)
    }

    /// Notes that a pipeline runs.
    pub fn started(&mut self, name: String, handle: H)
        requires
            old(self).wf(),
        ensures
            final(self).wf(),
            final(self).running@ == old(self).running@.insert(name@, handle),
            *final(self) == (PipelineSupervisor { running: final(self).running, ..*old(self) }),
    {
        self.running.insert(name, handle);
    }

    /// Notes that a pipeline does not run any more, and returns the handle by which the runtime
    /// stops it. There is none where it does not run.
    pub fn stop(&mut self, name: &str) -> (r: Option<H>)
        requires
            old(self).wf(),
        ensures
            final(self).wf(),
            final(self).running@ == old(self).running@.remove(name@),
            *final(self) == (PipelineSupervisor { running: final(self).running, ..*old(self) }),
            match r {
                Some(handle) => old(self).running@.contains_key(name@) && handle
                    == old(self).running@[name@],
                None => !old(self).running@.contains_key(name@),
            },
    {
        self.running.remove(name)
    }

    pub fn is_running(&self, name: &str) -> (r: bool)
        requires
            self.wf(),
        ensures
            r == self.running@.contains_key(name@),
    {
        self.running.contains(name)
    }

    /// The names of the pipelines that run, in order.
    pub fn list_running(&self) -> (r: Vec<String>)
        requires
            self.wf(),
        ensures
            texts(r@) == self.running.names_in_order(),
            forall|k: Seq<char>| texts(r@).contains(k) == self.running@.contains_key(k),
    {
        let names = self.running.names();
        proof {
            self.running.lemma_names();
            assert(texts(names@) =~= self.running.names_in_order());
            assert forall|k: Seq<char>| texts(names@).contains(k) == self.running@.contains_key(
                k,
            ) by {
                assert(texts(names@).to_set().contains(k) == texts(names@).contains(k));
            }
        }
        names
    }

    /// The handle of a pipeline that runs.
    pub fn get(&self, name: &str) -> (r: Option<&H>)
        requires
            self.wf(),
        ensures
            match r {
                Some(handle) => self.running@.contains_key(name@) && *handle
                    == self.running@[name@],
                None => !self.running@.contains_key(name@),
            },
    {
        self.running.get(name)
    }

    /// Decides what is to be done so that exactly the desired pipelines run. Pipelines that run
    /// and are desired are left alone.
    pub fn reconcile(&self, desired: &Vec<String>) -> (r: ReconcilePlan)
        requires
            self.wf(),
        ensures
            texts(r.stop@) == self.running.names_in_order().filter(
                |k: Seq<char>| !texts(desired@).contains(k),
            ),
            forall|i: int, j: int| 0 <= i < j < r.start@.len() ==> r.start@[i] < r.start@[j],
            forall|i: int|
                0 <= i < desired@.len() ==> (#[trigger] starts(
                    self.running@.dom(),
                    texts(desired@),
                    i,
                ) <==> r.start@.contains(i as usize)),
            forall|i: int|
                0 <= i < r.start@.len() ==> (#[trigger] r.start@[i]) < desired@.len(),
    {
        let names = self.running.names();
        let ghost all = self.running.names_in_order();
        let ghost wanted = texts(desired@);
        let ghost unwanted = |k: Seq<char>| !wanted.contains(k);
        proof {
            assert(texts(names@) =~= all);
            reveal(Seq::filter);
        }
        let mut stop: Vec<String> = Vec::new();
        let mut i: usize = 0;
        assert(texts(stop@) =~= all.take(0).filter(unwanted));
        while i < names.len()
            invariant
                i <= names@.len(),
                all == texts(names@),
                wanted == texts(desired@),
                unwanted == (|k: Seq<char>| !wanted.contains(k)),
                texts(stop@) == all.take(i as int).filter(unwanted),
            decreases names@.len() - i,
        {
            proof {
                reveal(Seq::filter);
                assert(all.take(i + 1).drop_last() =~= all.take(i as int));
                assert(all.take(i + 1).last() == names@[i as int]@);
            }
            if !lists_text(desired, names[i].as_str()) {
                let ghost before = stop@;
                stop.push(names[i].clone());
                assert(texts(stop@) =~= texts(before).push(names@[i as int]@));
            }
            i += 1;
        }
        assert(all.take(all.len() as int) =~= all);
        let mut start: Vec<usize> = Vec::new();
        let mut j: usize = 0;
        while j < desired.len()
            invariant
                j <= desired@.len(),
                self.wf(),
                wanted == texts(desired@),
                forall|a: int| 0 <= a < start@.len() ==> (#[trigger] start@[a]) < j,
                forall|a: int, b: int| 0 <= a < b < start@.len() ==> start@[a] < start@[b],
                forall|a: int|
                    0 <= a < j ==> (#[trigger] starts(self.running@.dom(), wanted, a)
                        <==> start@.contains(a as usize)),
            decreases desired@.len() - j,
        {
            let ghost before = start@;
            let fresh = !self.running.contains(desired[j].as_str()) && !named_before(desired, j);
            assert(fresh == starts(self.running@.dom(), wanted, j as int));
            if fresh {
                start.push(j);
                assert(start@[before.len() as int] == j);
            }
            proof {
                assert forall|a: int| 0 <= a < j + 1 implies (#[trigger] starts(
                    self.running@.dom(),
                    wanted,
                    a,
                ) <==> start@.contains(a as usize)) by {
                    if a < j {
                        if before.contains(a as usize) {
                            let w = choose|w: int|
                                0 <= w < before.len() && before[w] == a as usize;
                            assert(start@[w] == a as usize);
                        }
                        if start@.contains(a as usize) {
                            let w = choose|w: int|
                                0 <= w < start@.len() && start@[w] == a as usize;
                            assert(before[w] == a as usize);
                        }
                    } else if !fresh {
                        if start@.contains(a as usize) {
                            let w = choose|w: int|
                                0 <= w < start@.len() && start@[w] == a as usize;
                            assert(start@[w] < j);
                        }
                    }
                }
            }
            j += 1;
        }
        ReconcilePlan { stop, start }
    }
}

fn named_before(desired: &Vec<String>, i: usize) -> (r: bool)
    requires
        i < desired@.len(),
    ensures
        r == exists|j: int| 0 <= j < i && #[trigger] texts(desired@)[j] == texts(desired@)[i as int],
{
    let mut j: usize = 0;
    while j < i
        invariant
            j <= i < desired@.len(),
            forall|k: int| 0 <= k < j ==> #[trigger] texts(desired@)[k] != texts(desired@)[i as int],
        decreases i - j,
    {
        if same_text(desired[j].as_str(), desired[i].as_str()) {
            assert(texts(desired@)[j as int] == texts(desired@)[i as int]);
            return true;
        }
        j += 1;
    }
    false
}

fn copy_partitions(list: &Vec<u16>) -> (r: Vec<u16>)
    ensures
        r@ == list@,
{
    let r = list.clone();
    assert(r@ =~= list@);
    r
}

/// The pipelines that run after some are stopped and some are started.
pub open spec fn after_reconcile(
    running: Set<Seq<char>>,
    stopped: Seq<Seq<char>>,
    desired: Seq<Seq<char>>,
    started: Seq<usize>,
) -> Set<Seq<char>> {
    running.difference(stopped.to_set()).union(
        started.map_values(|i: usize| desired[i as int]).to_set(),
    )
}

proof fn lemma_filter_members(list: Seq<Seq<char>>, keep: spec_fn(Seq<char>) -> bool, k: Seq<char>)
    ensures
        list.filter(keep).contains(k) <==> list.contains(k) && keep(k),
    decreases list.len(),
{
    reveal(Seq::filter);
    if list.len() > 0 {
        let front = list.drop_last();
        lemma_filter_members(front, keep, k);
        assert(list =~= front.push(list.last()));
        if front.contains(k) {
            let w = choose|w: int| 0 <= w < front.len() && front[w] == k;
            assert(list[w] == k);
        }
        if front.filter(keep).contains(k) {
            let f = front.filter(keep);
            let w = choose|w: int| 0 <= w < f.len() && f[w] == k;
            assert(list.filter(keep)[w] == k);
        }
        if list.last() == k && keep(k) {
            assert(list.filter(keep).last() == k);
        }
        if list.contains(k) && k != list.last() {
            let w = choose|w: int| 0 <= w < list.len() && list[w] == k;
            assert(front[w] == k);
        }
        if list.filter(keep).contains(k) && !(list.last() == k) {
            let f = list.filter(keep);
            let w = choose|w: int| 0 <= w < f.len() && f[w] == k;
            assert(front.filter(keep)[w] == k);
        }
    }
}

/// Once the pipelines that are to be stopped are stopped and those that are to be started are
/// started, exactly the desired pipelines run.
pub proof fn law_reconcile_converges(
    running: Set<Seq<char>>,
    names: Seq<Seq<char>>,
    desired: Seq<Seq<char>>,
    stopped: Seq<Seq<char>>,
    started: Seq<usize>,
)
    requires
        desired.len() <= usize::MAX,
        names.to_set() == running,
        stopped == names.filter(|k: Seq<char>| !desired.contains(k)),
        forall|i: int|
            0 <= i < desired.len() ==> (#[trigger] starts(running, desired, i)
                <==> started.contains(i as usize)),
        forall|i: int| 0 <= i < started.len() ==> (#[trigger] started[i]) < desired.len(),
    ensures
        after_reconcile(running, stopped, desired, started) == desired.to_set(),
{
    let fresh = started.map_values(|i: usize| desired[i as int]);
    let after = after_reconcile(running, stopped, desired, started);
    assert forall|k: Seq<char>| after.contains(k) == desired.to_set().contains(k) by {
        lemma_filter_members(names, |n: Seq<char>| !desired.contains(n), k);
        assert(names.contains(k) == names.to_set().contains(k));
        if desired.contains(k) && !running.contains(k) {
            let i = lemma_first_place(desired, k);
            assert(starts(running, desired, i));
            assert(started.contains(i as usize));
            let w = choose|w: int| 0 <= w < started.len() && started[w] == i as usize;
            assert(fresh[w] == k);
        }
        if fresh.contains(k) {
            let w = choose|w: int| 0 <= w < fresh.len() && fresh[w] == k;
            assert(started[w] < desired.len());
            assert(desired[started[w] as int] == k);
        }
        assert(desired.contains(k) == desired.to_set().contains(k));
        assert(fresh.contains(k) == fresh.to_set().contains(k));
        assert(stopped.contains(k) == stopped.to_set().contains(k));
    }
    assert(after =~= desired.to_set());
}

proof fn lemma_first_place(list: Seq<Seq<char>>, k: Seq<char>) -> (i: int)
    requires
        list.contains(k),
    ensures
        0 <= i < list.len(),
        list[i] == k,
        forall|j: int| 0 <= j < i ==> list[j] != k,
    decreases list.len(),
{
    if list.drop_last().contains(k) {
        let i = lemma_first_place(list.drop_last(), k);
        assert forall|j: int| 0 <= j < i implies list[j] != k by {
            assert(list.drop_last()[j] != k);
        }
        i
    } else {
        let i = list.len() - 1;
        let w = choose|w: int| 0 <= w < list.len() && list[w] == k;
        if w < i {
            assert(list.drop_last()[w] == k);
        }
        assert forall|j: int| 0 <= j < i implies list[j] != k by {
            assert(list.drop_last()[j] == list[j]);
        }
        i
    }
}

/// A pipeline may be started exactly where it has a source and a sink, no probe refuses it, and
/// its hold time, where it gives one, denotes a span.
pub proof fn law_when_a_pipeline_may_start(def: PipelineDefinition, probes: Probes)
    ensures
        objection(def, probes) is None <==> {
            &&& def.sources@.len() > 0
            &&& def.sinks@.len() > 0
            &&& probes.encryption is Ok
            &&& probes.erasure is Ok
            &&& probes.compliance is Ok
            &&& def.durability.retention.l2_body.hold_after_ack matches Some(s) ==> hold_time(s@)
                is Span
        },
{
}

/// Of several objections the first is named: no source, no sink, encryption, erasure, the hold
/// time, compliance. A refusal names the pipeline and gives the probe's own reason.
pub proof fn law_the_first_objection_is_named(def: PipelineDefinition, probes: Probes)
    ensures
        ({
            let name = def.name@;
            let front = "pipeline '"@ + name + "' refused to start: "@;
            let complete = def.sources@.len() > 0 && def.sinks@.len() > 0;
            let held = def.durability.retention.l2_body.hold_after_ack;
            &&& def.sources@.len() == 0 ==> objection(def, probes) == Some(
                "pipeline '"@ + name + "' has no sources"@,
            )
            &&& def.sources@.len() > 0 && def.sinks@.len() == 0 ==> objection(def, probes) == Some(
                "pipeline '"@ + name + "' has no sinks"@,
            )
            &&& complete ==> (probes.encryption matches Err(why) ==> objection(def, probes)
                == Some(front + why@))
            &&& complete && probes.encryption is Ok ==> (probes.erasure matches Err(why)
                ==> objection(def, probes) == Some(front + why@))
            &&& complete && probes.encryption is Ok && probes.erasure is Ok ==> (held matches Some(
                s,
            ) ==> (hold_time(s@) !is Span ==> objection(def, probes) == Some(
                front + hold_error(s@),
            )))
            &&& complete && probes.encryption is Ok && probes.erasure is Ok && (held matches Some(
                s,
            ) ==> hold_time(s@) is Span) ==> (probes.compliance matches Err(why) ==> objection(
                def,
                probes,
            ) == Some(front + why@))
        }),
{
}

/// Two plans that a pipeline declares hold event bodies for the same time and keep the same
/// records: nothing where nothing is said.
pub proof fn law_a_pipeline_declares_one_plan(
    def: PipelineDefinition,
    a: RetentionPlan,
    b: RetentionPlan,
)
    requires
        retention_declared(def, a),
        retention_declared(def, b),
    ensures
        a.l3_max_records == def.durability.retention.l3_ack.max_records,
        a.l3_max_records == b.l3_max_records,
        a.l2_hold_after_ack.total_nanos() == b.l2_hold_after_ack.total_nanos(),
        def.durability.retention.l2_body.hold_after_ack is None ==> a.l2_hold_after_ack.secs == 0
            && a.l2_hold_after_ack.nanos == 0,
        def.durability.retention.l2_body.hold_after_ack matches Some(s) ==> hold_time(s@)
            == HoldTime::Span(a.l2_hold_after_ack.total_nanos()),
{
}

/// Durability, checkpoints and their interval are as a pipeline declares them; without durability
/// there are no checkpoints, and without an interval that denotes a span they come each second.
pub proof fn law_deliveries_are_as_declared(def: PipelineDefinition, d: DeliveryConfig)
    requires
        declared_delivery(def, d),
    ensures
        d.durability == def.durability.mode,
        def.durability.mode == DurabilityMode::Off ==> d.checkpoint.backend
            == CheckpointBackend::Off && d.checkpoint.retention.total_nanos() == 0,
        def.durability.mode != DurabilityMode::Off ==> d.checkpoint.backend
            == def.durability.checkpoint.backend && d.checkpoint.retention.secs == 24 * 60 * 60
            && d.checkpoint.retention.nanos == 0,
        d.checkpoint.dir is None,
        d.flush.max_pending == 50_000,
        !d.flush.adaptive,
        def.durability.checkpoint.interval is None ==> d.flush.interval.secs == 1
            && d.flush.interval.nanos == 0,
        def.durability.checkpoint.interval matches Some(s) ==> match hold_time(s@) {
            HoldTime::Span(n) => d.flush.interval.total_nanos() == n,
            _ => d.flush.interval.secs == 1 && d.flush.interval.nanos == 0,
        },
{
}

/// A pipeline runs under its own name, with its own deliveries, and with a chain exactly where it
/// asks for one.
pub proof fn law_a_configuration_is_as_declared(def: PipelineDefinition, c: PipelineConfig)
    requires
        declared_config(def, c),
    ensures
        c.pipeline_name@ == def.name@,
        c.source_buffer_capacity == 8192 && c.sink_buffer_capacity == 8192,
        c.max_batch_size == 1024,
        c.core_pinning == CorePinning::Disabled,
        c.sink_name@ == "sink"@,
        c.delivery.durability == def.durability.mode,
        c.poh is Some <==> def.poh.enabled,
        c.poh matches Some(poh) ==> poh.partition == 0 && poh.max_recent_entries
            == def.poh.max_recent_entries,
{
}

/// A pipeline can be set up exactly where its signing key, if it asks for one, can be had, and
/// where the node has a place for event bodies, if it keeps any.
pub proof fn law_when_a_pipeline_can_be_set_up(
    def: PipelineDefinition,
    secret: SecretLookup,
    l2_root: Option<String>,
)
    ensures
        setup_objection(def, secret, l2_root) is None <==> {
            &&& def.poh.enabled && def.poh.signing_key_ref is Some ==> (secret matches
                SecretLookup::Found(raw) && key_of(raw@) is Some)
            &&& def.durability.mode.wants_l2() ==> l2_root is Some
        },
        def.poh.enabled ==> (def.poh.signing_key_ref matches Some(reference) ==> {
            &&& secret is NoRegistry ==> setup_objection(def, secret, l2_root) == Some(
                no_registry_text(),
            )
            &&& secret matches SecretLookup::Failed(why) ==> setup_objection(def, secret, l2_root)
                == Some(
                "poh probe: failed to resolve signing_key_ref '"@ + reference@ + "': "@ + why@,
            )
            &&& secret matches SecretLookup::Found(raw) ==> (key_of(raw@) is None
                ==> setup_objection(def, secret, l2_root) == Some(
                bad_key_text(reference@, raw@.len()),
            ))
        }),
{
}

/// A name is put below a directory with one slash between them, which is left out where there is
/// no directory, or where a slash stands there already. A name that is a path from the root stays
/// as it is.
pub proof fn law_a_name_is_put_below(dir: Seq<char>, name: Seq<char>)
    ensures
        ({
            let r = path_below(dir, name);
            let slash: int = if dir.len() == 0 || dir.last() == '/' {
                0
            } else {
                1
            };
            if name.len() > 0 && name[0] == '/' {
                r == name
            } else {
                &&& r.len() == dir.len() + slash + name.len()
                &&& r.take(dir.len() as int) == dir
                &&& r.skip(r.len() - name.len()) == name
                &&& slash == 1 ==> r[dir.len() as int] == '/'
            }
        }),
{
    reveal_strlit("/");
    let r = path_below(dir, name);
    if !(name.len() > 0 && name[0] == '/') {
        assert(r.take(dir.len() as int) =~= dir);
        assert(r.skip(r.len() - name.len()) =~= name);
    }
}

/// A tier is native where it says so, in letters of either case; one that says nothing is not.
pub proof fn law_a_tier_is_native_in_either_case(tier: Seq<char>, dir: Seq<char>)
    ensures
        !is_native(None),
        is_native(Some(tier)) <==> tier.len() == 6 && (tier[0] == 'n' || tier[0] == 'N') && (tier[1]
            == 'a' || tier[1] == 'A') && (tier[2] == 't' || tier[2] == 'T') && (tier[3] == 'i'
            || tier[3] == 'I') && (tier[4] == 'v' || tier[4] == 'V') && (tier[5] == 'e' || tier[5]
            == 'E'),
        processors_dir(Some(dir)) == dir,
        processors_dir(None) == "/app/processors"@,
{
    reveal_strlit("native");
    law_case_is_that_of_ascii_letters(tier, "native"@);
    let word = "native"@;
    assert(word[0] == 'n' && word[1] == 'a' && word[2] == 't' && word[3] == 'i' && word[4] == 'v'
        && word[5] == 'e');
    if is_native(Some(tier)) {
        assert(tier.len() == 6);
        let all = (tier[0], tier[1], tier[2], tier[3], tier[4], tier[5]);
    }
}

/// A desired pipeline that does not run is started, at the first place where it is named and only
/// there; one that runs is not.
pub proof fn law_a_missing_pipeline_is_started_once(
    running: Set<Seq<char>>,
    desired: Seq<Seq<char>>,
    i: int,
    j: int,
)
    requires
        0 <= i < desired.len(),
        0 <= j < desired.len(),
    ensures
        running.contains(desired[i]) ==> !starts(running, desired, i),
        starts(running, desired, i) && starts(running, desired, j) && desired[i] == desired[j]
            ==> i == j,
        !running.contains(desired[i]) ==> exists|k: int|
            k <= i && desired[k] == desired[i] && #[trigger] starts(running, desired, k),
{
    if !running.contains(desired[i]) {
        let k = lemma_first_place(desired, desired[i]);
        assert(starts(running, desired, k));
    }
}

/// A source reads the partitions that it declares. One that declares none reads those of its node,
/// where the node knows them.
pub proof fn law_which_partitions_a_source_reads<H, R>(
    node: PipelineSupervisor<H, R>,
    def: PipelineDefinition,
    owned: Option<Vec<u16>>,
)
    requires
        def.sources@.len() > 0,
    ensures
        ({
            let declared = def.sources@[0].partitions@;
            let read = node.source_partitions(def, owned);
            &&& declared.len() > 0 ==> read == declared
            &&& node.ownership is None || owned is None ==> read == declared
            &&& declared.len() == 0 && node.ownership is Some ==> (owned matches Some(list) ==> read
                == list@)
        }),
{
}

/// The refusal of a durable pipeline on a node without a place for event bodies names the pipeline
/// and its mode.
pub proof fn law_a_durable_pipeline_needs_a_place(def: PipelineDefinition)
    ensures
        ("pipeline '"@ + def.name@ + "' declares durability.mode="@
            + def.durability.mode.text()).is_prefix_of(no_l2_root(def)),
{
    let head = "pipeline '"@ + def.name@ + "' declares durability.mode="@
        + def.durability.mode.text();
    assert(no_l2_root(def).take(head.len() as int) =~= head);
}

} // verus!
