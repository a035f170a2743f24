use aeon_engine::error::AeonError;
use aeon_engine::retry::{retry_sync, RetryOutcome, RetryState, RetryStep};

#[test]
fn retry_sync_succeeds_immediately() {
    match retry_sync(3, || Ok::<_, AeonError>(42)) {
        RetryOutcome::Success { value, attempts } => {
            assert_eq!(value, 42);
            assert_eq!(attempts, 1);
        }
        _ => panic!("expected success"),
    }
}

#[test]
fn retry_sync_succeeds_after_transient_failures() {
    let mut call_count = 0;
    let result = retry_sync(5, || {
        let n = call_count;
        call_count += 1;
        if n < 2 {
            Err(AeonError::connection("transient".to_string()))
        } else {
            Ok(99)
        }
    });
    match result {
        RetryOutcome::Success { value, attempts } => {
            assert_eq!(value, 99);
            assert_eq!(attempts, 3);
        }
        _ => panic!("expected success"),
    }
}

#[test]
fn retry_sync_exhausted() {
    let result = retry_sync(2, || {
        Err::<(), _>(AeonError::connection("always fails".to_string()))
    });
    match result {
        RetryOutcome::Exhausted { attempts, last_error } => {
            assert_eq!(attempts, 3); // initial + 2 retries
            assert_eq!(last_error.message(), "always fails");
        }
        _ => panic!("expected exhausted"),
    }
}

#[test]
fn retry_sync_non_retryable_stops_immediately() {
    let result = retry_sync(5, || {
        Err::<(), _>(AeonError::serialization("bad data".to_string()))
    });
    match result {
        RetryOutcome::NonRetryable { attempts, .. } => {
            assert_eq!(attempts, 1);
        }
        _ => panic!("expected non-retryable"),
    }
}

#[test]
fn retry_zero_max_retries_means_single_attempt() {
    let result = retry_sync(0, || Err::<(), _>(AeonError::connection("fail".to_string())));
    match result {
        RetryOutcome::Exhausted { attempts, .. } => {
            assert_eq!(attempts, 1);
        }
        _ => panic!("expected exhausted"),
    }
}

#[test]
fn retry_async_succeeds_after_failures() {
    let mut call_count = 0;
    let result = retry_sync(3, || {
        let n = call_count;
        call_count += 1;
        if n < 1 {
            Err(AeonError::timeout("slow".to_string()))
        } else {
            Ok("done")
        }
    });
    match result {
        RetryOutcome::Success { value, attempts } => {
            assert_eq!(value, "done");
            assert_eq!(attempts, 2);
        }
        _ => panic!("expected success"),
    }
}

#[test]
fn each_retry_has_its_number() {
    let mut state = RetryState::new(2);
    let fail = || Err::<(), _>(AeonError::timeout("t".to_string()));
    assert!(matches!(state.attempted(fail()), RetryStep::Again { retry: 0 }));
    assert!(matches!(state.attempted(fail()), RetryStep::Again { retry: 1 }));
    assert!(matches!(
        state.attempted(fail()),
        RetryStep::Done(RetryOutcome::Exhausted { attempts: 3, .. })
    ));
}

#[test]
fn only_timeouts_and_connections_that_say_so_are_retried() {
    assert!(AeonError::timeout(String::new()).is_retryable());
    assert!(AeonError::connection(String::new()).is_retryable());
    assert!(!AeonError::Connection { message: String::new(), retryable: false }.is_retryable());
    assert!(!AeonError::config(String::new()).is_retryable());
    assert!(!AeonError::state(String::new()).is_retryable());
    assert!(!AeonError::processor(String::new()).is_retryable());
    assert!(!AeonError::not_found(String::new()).is_retryable());
}
