use aeon_engine::shutdown::{HealthState, ShutdownConfig, ShutdownCoordinator};
use aeon_engine::time::Duration;

#[test]
fn trigger_sets_shutdown_flag() {
    let mut coordinator = ShutdownCoordinator::new(false);

    assert!(!coordinator.is_shutdown());
    coordinator.trigger();
    assert!(coordinator.is_shutdown());
}

#[test]
fn trigger_sets_health_not_ready() {
    let mut health = HealthState::new();
    health.set_ready();

    let mut coordinator = ShutdownCoordinator::new(false).with_health(health);

    assert!(coordinator.health().unwrap().is_ready());
    coordinator.trigger();
    assert!(!coordinator.health().unwrap().is_ready());
}

#[test]
fn default_drain_timeout() {
    let coordinator = ShutdownCoordinator::new(false);
    assert_eq!(coordinator.drain_timeout(), Duration::from_secs(30));
}

#[test]
fn custom_config() {
    let config = ShutdownConfig {
        drain_timeout: Duration::from_secs(5),
    };
    let coordinator = ShutdownCoordinator::new(false).with_config(config);
    assert_eq!(coordinator.drain_timeout(), Duration::from_secs(5));
}

#[test]
fn wait_for_shutdown_returns_true_when_triggered() {
    let mut coordinator = ShutdownCoordinator::new(false);
    let timeout = Duration::from_secs(1);
    assert_eq!(coordinator.wait_for_shutdown(Duration::from_millis(5), timeout), None);
    coordinator.trigger();
    assert_eq!(coordinator.wait_for_shutdown(Duration::from_millis(10), timeout), Some(true));
}

#[test]
fn wait_for_shutdown_returns_false_on_timeout() {
    let coordinator = ShutdownCoordinator::new(false);
    let timeout = Duration::from_millis(20);
    assert_eq!(coordinator.wait_for_shutdown(Duration::from_millis(19), timeout), None);
    assert_eq!(coordinator.wait_for_shutdown(Duration::from_millis(20), timeout), Some(false));
}

#[test]
fn others_may_set_the_flag() {
    let mut health = HealthState::new();
    health.set_ready();
    let mut coordinator = ShutdownCoordinator::new(false).with_health(health);
    coordinator.note(false);
    assert!(!coordinator.is_shutdown());
    coordinator.note(true);
    assert!(coordinator.is_shutdown());
    // Only the coordinator's own trigger withdraws the health.
    assert!(coordinator.health().unwrap().is_ready());
    assert_eq!(
        coordinator.wait_for_shutdown(Duration::from_millis(1), Duration::from_secs(1)),
        Some(true)
    );
    coordinator.note(false);
    coordinator.trigger();
    assert!(coordinator.is_shutdown());
    assert!(!coordinator.health().unwrap().is_ready());
}

#[test]
fn a_flag_that_is_set_counts_from_the_start() {
    let coordinator = ShutdownCoordinator::new(true);
    assert!(coordinator.is_shutdown());
    assert!(coordinator.health().is_none());
}

#[test]
fn health_begins_not_ready() {
    let mut health = HealthState::new();
    assert!(!health.is_ready());
    health.set_ready();
    assert!(health.is_ready());
    health.set_not_ready();
    assert!(!health.is_ready());
}
