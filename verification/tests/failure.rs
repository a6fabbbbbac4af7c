use phlo_transform_engine::error::AdapterError;
use phlo_transform_engine::failure::{
    classify_adapter_error, timeout_failure, Duration, Failure, FailureCategory, RetryPolicy,
};

#[test]
fn sql_errors_are_never_retried() {
    let policy = RetryPolicy {
        retries: 3,
        ..Default::default()
    };
    let failure = classify_adapter_error(&AdapterError::new("COLUMN_NOT_FOUND", "no column"), 1);
    assert_eq!(failure.category, FailureCategory::Sql);
    assert!(!failure.retryable);
    assert!(!policy.should_retry(&failure, 1));
}

#[test]
fn retryable_adapter_errors_back_off_exponentially() {
    let policy = RetryPolicy {
        retries: 3,
        base_delay: Duration::from_millis(100),
        max_delay: Duration::from_secs(1),
    };
    assert_eq!(policy.max_attempts(), 4);
    assert_eq!(policy.delay(1), Duration::from_millis(100));
    assert_eq!(policy.delay(2), Duration::from_millis(200));
    assert_eq!(policy.delay(3), Duration::from_millis(400));
    assert_eq!(policy.delay(4), Duration::from_millis(800));
    assert_eq!(policy.delay(5), Duration::from_secs(1));

    let failure =
        classify_adapter_error(&AdapterError::new("TRINO_TRANSPORT", "boom").retryable(), 1);
    assert_eq!(failure.category, FailureCategory::Adapter);
    assert!(policy.should_retry(&failure, 1));
    assert!(policy.should_retry(&failure, 3));
    assert!(!policy.should_retry(&failure, 4));
}

#[test]
fn non_retryable_adapter_errors_do_not_retry() {
    let policy = RetryPolicy {
        retries: 2,
        ..Default::default()
    };
    let failure = classify_adapter_error(&AdapterError::new("TRINO_AUTH", "denied"), 1);
    assert_eq!(failure.category, FailureCategory::Adapter);
    assert!(!policy.should_retry(&failure, 1));
}

#[test]
fn timeouts_name_their_limit() {
    let failure = timeout_failure(Duration::from_millis(1500), 2);
    assert_eq!(failure.category, FailureCategory::Timeout);
    assert_eq!(failure.attempt, 2);
    assert!(failure.message.contains("1.5"), "{}", failure.message);
    assert!(!failure.message.contains("1500"), "{}", failure.message);
}

#[test]
fn the_longest_delay_is_bounded() {
    let policy = RetryPolicy {
        retries: u32::MAX,
        base_delay: Duration::from_secs(u64::MAX),
        max_delay: Duration::from_secs(7),
    };
    assert_eq!(policy.max_attempts(), u32::MAX);
    assert_eq!(policy.delay(u32::MAX), Duration::from_secs(7));
}

#[test]
fn a_failure_outside_an_attempt_keeps_its_time() {
    let failure = Failure::without_attempt_at(
        FailureCategory::Cancelled,
        "stopped",
        "2026-01-01T00:00:00Z",
    );
    assert_eq!(failure.message, "stopped");
    assert_eq!(failure.category.code(), FailureCategory::Cancelled.code());
    assert_eq!(failure.at, "2026-01-01T00:00:00Z");
    assert!(!failure.retryable);
}

#[test]
fn delays_double_until_the_ceiling() {
    let policy = RetryPolicy {
        retries: 40,
        base_delay: Duration::from_millis(1),
        max_delay: Duration::from_secs(3600),
    };
    assert_eq!(policy.delay(0), Duration::from_millis(1));
    assert_eq!(policy.delay(1), Duration::from_millis(1));
    assert_eq!(policy.delay(17), Duration::from_millis(65_536));
    assert_eq!(policy.delay(18), Duration::from_millis(131_072));
    assert_eq!(policy.delay(22), Duration::from_millis(2_097_152));
    assert_eq!(policy.delay(23), Duration::from_secs(3600));
    assert_eq!(policy.delay(u32::MAX), Duration::from_secs(3600));
    let idle = RetryPolicy {
        base_delay: Duration::from_millis(0),
        ..policy
    };
    assert_eq!(idle.delay(u32::MAX), Duration::from_millis(0));
}

#[test]
fn the_default_policy_makes_one_attempt() {
    let policy = RetryPolicy::default();
    assert_eq!(policy.max_attempts(), 1);
    assert_eq!(policy.base_delay, Duration::from_millis(200));
    assert_eq!(policy.max_delay, Duration::from_secs(5));
    assert_eq!(policy.delay(5), Duration::from_millis(3200));
    assert_eq!(policy.delay(6), Duration::from_secs(5));
}
