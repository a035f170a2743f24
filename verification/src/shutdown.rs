//! Graceful shutdown.
use vstd::prelude::*;

use crate::time::Duration;

verus! {

/// How a node shuts down.
#[derive(Debug, Clone, Copy, PartialEq, Eq, Structural)]
pub struct ShutdownConfig {
    /// How long events in flight may take to drain.
    pub drain_timeout: Duration,
}

impl Default for ShutdownConfig {
    fn default() -> (r: Self)
        ensures
            r.drain_timeout == (Duration { secs: 30, nanos: 0 }),
    {
        ShutdownConfig { drain_timeout: Duration::from_secs(30) }
    }
}

/// Whether a node takes traffic.
#[derive(Debug, Clone, Copy, PartialEq, Eq, Structural)]
pub struct HealthState {
    ready: bool,
}

impl HealthState {
    /// Whether the node takes traffic.
    pub closed spec fn takes_traffic(self) -> bool {
        self.ready
    }

    /// A node that does not take traffic yet.
    pub fn new() -> (r: Self)
        ensures
            !r.takes_traffic(),
    {
        HealthState { ready: false }
    }

    pub fn set_ready(&mut self)
        ensures
            final(self).takes_traffic(),
    {
        self.ready = true;
    }

    pub fn set_not_ready(&mut self)
        ensures
            !final(self).takes_traffic(),
    {
        self.ready = false;
    }

    pub fn is_ready(&self) -> (r: bool)
        ensures
            r == self.takes_traffic(),
    {
        self.ready
    }
}

/// Coordinates the shutdown of a node. The flag that says whether shutdown has begun is shared: it
/// may be set by others too, and what it was found to be is noted here.
#[derive(Debug)]
pub struct ShutdownCoordinator {
    shutdown: bool,
    health: Option<HealthState>,
    config: ShutdownConfig,
}

impl ShutdownCoordinator {
    /// Whether shutdown has begun.
    pub closed spec fn begun(&self) -> bool {
        self.shutdown
    }

    /// The health that shutdown withdraws, where one is attached.
    pub closed spec fn attached_health(&self) -> Option<HealthState> {
        self.health
    }

    pub closed spec fn settings(&self) -> ShutdownConfig {
        self.config
    }

    /// A coordinator with the default configuration, over a flag that says whether shutdown has
    /// begun.
    pub fn new(shutdown: bool) -> (r: Self)
        ensures
            r.begun() == shutdown,
            r.attached_health() is None,
            r.settings().drain_timeout == (Duration { secs: 30, nanos: 0 }),
    {
        ShutdownCoordinator { shutdown, health: None, config: ShutdownConfig::default() }
    }

    /// Attaches the health that shutdown withdraws.
    pub fn with_health(self, health: HealthState) -> (r: Self)
        ensures
            r.begun() == self.begun(),
            r.attached_health() == Some(health),
            r.settings() == self.settings(),
    {
        ShutdownCoordinator { shutdown: self.shutdown, health: Some(health), config: self.config }
    }

    pub fn with_config(self, config: ShutdownConfig) -> (r: Self)
        ensures
            r.begun() == self.begun(),
            r.attached_health() == self.attached_health(),
            r.settings() == config,
    {
        ShutdownCoordinator { shutdown: self.shutdown, health: self.health, config }
    }

    /// What becomes of a coordinator when something happens to the flag. Only this coordinator's
    /// own trigger withdraws the health.
    pub open spec fn follows(&self, before: &Self, event: FlagEvent) -> bool {
        &&& self.settings() == before.settings()
        &&& match event {
            FlagEvent::Triggered => {
                &&& self.begun()
                &&& match before.attached_health() {
                    Some(_) => self.attached_health() is Some
                        && !self.attached_health()->0.takes_traffic(),
                    None => self.attached_health() is None,
                }
            },
            FlagEvent::Noted(flag) => {
                &&& self.begun() == flag
                &&& self.attached_health() == before.attached_health()
            },
        }
    }

    /// Takes note of the shared flag as it was read.
    pub fn note(&mut self, flag: bool)
        ensures
            final(self).follows(old(self), FlagEvent::Noted(flag)),
    {
        self.shutdown = flag;
    }

    /// Begins shutdown: the node takes no more traffic, and the flag is set.
    pub fn trigger(&mut self)
        ensures
            final(self).follows(old(self), FlagEvent::Triggered),
    {
        if let Some(mut health) = self.health.take() {
            health.set_not_ready();
            self.health = Some(health);
        }
        self.shutdown = true;
    }

    pub fn is_shutdown(&self) -> (r: bool)
        ensures
            r == self.begun(),
    {
        self.shutdown
    }

    /// The health that shutdown withdraws.
    pub fn health(&self) -> (r: Option<HealthState>)
        ensures
            r == self.attached_health(),
    {
        self.health
    }

    pub fn drain_timeout(&self) -> (r: Duration)
        ensures
            r == self.settings().drain_timeout,
    {
        self.config.drain_timeout
    }

    /// What to do while waiting for shutdown: the answer once shutdown has begun or the time is
    /// up, nothing while neither is so.
    pub fn wait_for_shutdown(&self, elapsed: Duration, timeout: Duration) -> (r: Option<bool>)
        ensures
            r == (if self.begun() {
                Some(true)
            } else if elapsed.total_nanos() < timeout.total_nanos() {
                None
            } else {
                Some(false)
            }),
    {
        if self.shutdown {
            Some(true)
        } else if elapsed.as_nanos() < timeout.as_nanos() {
            None
        } else {
            Some(false)
        }
    }
}

/// What may happen to the flag.
pub ghost enum FlagEvent {
    /// The coordinator set it.
    Triggered,
    /// It was read, after whatever others did to it.
    Noted(bool),
}

/// What the flag is after some events.
pub open spec fn flag_after(flag: bool, events: Seq<FlagEvent>) -> bool {
    if events.len() == 0 {
        flag
    } else {
        match events.last() {
            FlagEvent::Triggered => true,
            FlagEvent::Noted(read) => read,
        }
    }
}

/// Whether a coordinator goes through these states as these events happen.
pub open spec fn goes_through(
    states: Seq<ShutdownCoordinator>,
    events: Seq<FlagEvent>,
) -> bool {
    &&& states.len() == events.len() + 1
    &&& forall|i: int|
        0 <= i < events.len() ==> (#[trigger] states[i + 1]).follows(&states[i], events[i])
}

/// Whatever happens to the flag, at the hands of the coordinator or of others, shutdown has begun
/// exactly where the flag is set; and as long as nobody sets a flag that was clear, it has not.
pub proof fn law_shutdown_is_the_shared_flag(
    states: Seq<ShutdownCoordinator>,
    events: Seq<FlagEvent>,
)
    requires
        goes_through(states, events),
    ensures
        states.last().begun() == flag_after(states[0].begun(), events),
        states.last().settings() == states[0].settings(),
        !states[0].begun() && (forall|i: int|
            0 <= i < events.len() ==> #[trigger] events[i] == FlagEvent::Noted(false))
            ==> !states.last().begun(),
        (forall|i: int| 0 <= i < events.len() ==> (#[trigger] events[i]) is Noted)
            ==> states.last().attached_health() == states[0].attached_health(),
    decreases events.len(),
{
    if events.len() > 0 {
        let n = events.len() - 1;
        let front = states.drop_last();
        let earlier = events.drop_last();
        assert forall|i: int| 0 <= i < earlier.len() implies (#[trigger] front[i + 1]).follows(
            &front[i],
            earlier[i],
        ) by {
            assert(states[i + 1].follows(&states[i], events[i]));
        }
        law_shutdown_is_the_shared_flag(front, earlier);
        assert(states[n + 1].follows(&states[n], events[n]));
        assert(front.last() == states[n]);
        if forall|i: int| 0 <= i < events.len() ==> (#[trigger] events[i]) is Noted {
            assert forall|i: int| 0 <= i < earlier.len() implies (#[trigger] earlier[i]) is Noted by {
                assert(events[i] is Noted);
            }
        }
    }
}

/// A coordinator that begins shutdown has begun it and takes no more traffic; one that only reads
/// the flag does as the flag says and leaves its health alone. Neither changes the settings, nor
/// attaches health or detaches it.
pub proof fn law_only_a_trigger_withdraws_health(
    before: ShutdownCoordinator,
    triggered: ShutdownCoordinator,
    noted: ShutdownCoordinator,
    flag: bool,
)
    requires
        triggered.follows(&before, FlagEvent::Triggered),
        noted.follows(&before, FlagEvent::Noted(flag)),
    ensures
        triggered.begun(),
        triggered.attached_health() is Some <==> before.attached_health() is Some,
        triggered.attached_health() matches Some(health) ==> !health.takes_traffic(),
        triggered.settings() == before.settings(),
        noted.begun() <==> flag,
        noted.attached_health() == before.attached_health(),
        noted.settings() == before.settings(),
{
}

/// What was last said of the flag holds of it, whatever was said before.
pub proof fn law_the_last_word_on_the_flag_counts(
    flag: bool,
    events: Seq<FlagEvent>,
    read: bool,
)
    ensures
        flag_after(flag, Seq::empty()) == flag,
        flag_after(flag, events.push(FlagEvent::Triggered)),
        flag_after(flag, events.push(FlagEvent::Noted(read))) == read,
{
}

} // verus!
