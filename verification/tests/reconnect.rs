//! Attaching again and again.

use extender::client::error::ClientError;
use extender::client::reconnect::{
    jitter_for_attempt, next_attempt, Delay, ReconnectPolicy, ReconnectStep,
};

#[test]
fn test_default_policy() {
    let policy = ReconnectPolicy::default();
    assert!(policy.enabled);
    assert_eq!(policy.max_retries, 0);
    assert_eq!(policy.initial_delay, Delay::from_secs(1));
    assert_eq!(policy.max_delay, Delay::from_secs(30));
    assert_eq!(f64::from_bits(policy.backoff_factor_bits), 2.0);
}

#[test]
fn test_disabled_policy() {
    let policy = ReconnectPolicy::disabled();
    assert!(!policy.enabled);
    assert!(!policy.should_retry(0));
}

#[test]
fn test_from_config() {
    let policy = ReconnectPolicy::from_config(true, 5, 2, 60);
    assert!(policy.enabled);
    assert_eq!(policy.max_retries, 5);
    assert_eq!(policy.initial_delay, Delay::from_secs(2));
    assert_eq!(policy.max_delay, Delay::from_secs(60));
}

#[test]
fn test_should_retry_unlimited() {
    let policy = ReconnectPolicy {
        enabled: true,
        max_retries: 0,
        ..Default::default()
    };
    assert!(policy.should_retry(0));
    assert!(policy.should_retry(100));
    assert!(policy.should_retry(u32::MAX - 1));
}

#[test]
fn test_should_retry_limited() {
    let policy = ReconnectPolicy {
        enabled: true,
        max_retries: 3,
        ..Default::default()
    };
    assert!(policy.should_retry(0));
    assert!(policy.should_retry(1));
    assert!(policy.should_retry(2));
    assert!(!policy.should_retry(3));
    assert!(!policy.should_retry(4));
}

#[test]
fn test_should_retry_disabled() {
    let policy = ReconnectPolicy {
        enabled: false,
        max_retries: 10,
        ..Default::default()
    };
    assert!(!policy.should_retry(0));
}

#[test]
fn test_jitter_deterministic() {
    let j1 = jitter_for_attempt(5);
    let j2 = jitter_for_attempt(5);
    assert_eq!(j1, j2);
}

#[test]
fn test_jitter_range() {
    for attempt in 0..100 {
        let j = jitter_for_attempt(attempt) as f64 / 1000.0;
        assert!(j >= 0.0);
        assert!(j < 1.0);
    }
}

#[test]
fn jitter_of_some_attempts() {
    assert_eq!(jitter_for_attempt(0), 0);
    assert_eq!(jitter_for_attempt(1), 761);
    assert_eq!(jitter_for_attempt(2), 522);
}

#[test]
fn attempts_end_at_the_limit() {
    let policy = ReconnectPolicy::from_config(true, 2, 1, 30);
    let mut attempt = 0;
    let mut waits = Vec::new();
    loop {
        match next_attempt(&policy, attempt, Err(ClientError::NoFreePort { speed: 3 })) {
            ReconnectStep::Retry { wait, attempt: next } => {
                waits.push(wait);
                attempt = next;
            }
            ReconnectStep::Finish(r) => {
                assert!(matches!(r, Err(ClientError::NoFreePort { speed: 3 })));
                break;
            }
        }
    }
    assert_eq!(waits, [0, 1]);
    let once = next_attempt(
        &ReconnectPolicy::disabled(),
        0,
        Err(ClientError::PlatformNotSupported),
    );
    assert!(matches!(once, ReconnectStep::Finish(Err(_))));
}
