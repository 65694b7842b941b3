use std::time::Duration;
use velocityx::metrics::AtomicMetrics;
use velocityx::queue::backoff::{
    pop_timeout_step, push_timeout_step, retry_step, within_deadline, PopTimeoutStep,
    PushTimeoutStep, RetryStep, MAX_BACKOFF_NS, POP_INITIAL_BACKOFF_NS, PUSH_INITIAL_BACKOFF_NS,
};
use velocityx::Error;
use velocityx::PerformanceMetrics;

#[test]
fn test_snapshot_average_and_maximum() {
    let mut m = AtomicMetrics::default();
    m.record_success(Duration::from_nanos(100));
    m.record_success(Duration::from_nanos(300));
    m.record_failure();
    m.record_contention();
    let s = m.snapshot();
    assert_eq!(s.total_operations, 3);
    assert_eq!(s.successful_operations, 2);
    assert_eq!(s.failed_operations, 1);
    assert_eq!(s.contended_operations, 1);
    assert_eq!(s.avg_operation_time_ns, 133);
    assert_eq!(s.max_operation_time_ns, 300);
    assert_eq!(s.avg_operation_time(), Duration::from_nanos(133));
    assert_eq!(s.max_operation_time(), Duration::from_nanos(300));
}

#[test]
fn test_memory_usage_and_reset() {
    let mut m = AtomicMetrics::default();
    m.update_memory_usage(4096);
    m.update_memory_usage(1024);
    m.record_success(Duration::from_micros(2));
    let s = m.snapshot();
    assert_eq!(s.memory_usage_bytes, 1024);
    assert_eq!(s.peak_memory_usage_bytes, 4096);
    assert_eq!(s.max_operation_time_ns, 2000);
    m.reset();
    let s = m.snapshot();
    assert_eq!(s.total_operations, 0);
    assert_eq!(s.avg_operation_time_ns, 0);
    assert_eq!(s.max_operation_time_ns, 0);
    assert_eq!(s.memory_usage_bytes, 1024);
    assert_eq!(s.peak_memory_usage_bytes, 4096);
}

#[test]
fn test_counters_wrap_around() {
    let mut m = AtomicMetrics::default();
    m.total_operations = u64::MAX;
    m.failed_operations = u64::MAX;
    m.record_failure();
    assert_eq!(m.total_operations, 0);
    assert_eq!(m.failed_operations, 0);
}

#[test]
fn test_performance_metrics_durations() {
    let p = PerformanceMetrics {
        avg_operation_time_ns: 1_500,
        max_operation_time_ns: 2_000_000_000,
        ..PerformanceMetrics::default()
    };
    assert_eq!(p.avg_operation_time(), Duration::from_nanos(1_500));
    assert_eq!(p.max_operation_time(), Duration::from_secs(2));
}

#[test]
fn test_retry_steps() {
    assert_eq!(PUSH_INITIAL_BACKOFF_NS, 100);
    assert_eq!(POP_INITIAL_BACKOFF_NS, 50);
    assert_eq!(
        retry_step(1_000, 100),
        RetryStep::SleepThenRetry { sleep_ns: 100, next_backoff_ns: 200 }
    );
    assert_eq!(retry_step(99, 100), RetryStep::GiveUp);
    assert_eq!(
        retry_step(u128::MAX, 600_000),
        RetryStep::SleepThenRetry { sleep_ns: 600_000, next_backoff_ns: MAX_BACKOFF_NS }
    );
    assert_eq!(
        retry_step(MAX_BACKOFF_NS as u128, MAX_BACKOFF_NS),
        RetryStep::SleepThenRetry { sleep_ns: MAX_BACKOFF_NS, next_backoff_ns: MAX_BACKOFF_NS }
    );
}

#[test]
fn test_within_deadline() {
    assert!(within_deadline(0, 1));
    assert!(within_deadline(999, 1_000));
    assert!(!within_deadline(1_000, 1_000));
    assert!(!within_deadline(5_000, 1_000));
    assert!(!within_deadline(0, 0));
}

#[test]
fn test_push_timeout_steps() {
    // A success is the outcome.
    assert_eq!(push_timeout_step(10, 1_000, 100, Ok(())), PushTimeoutStep::Finish(Ok(())));
    // "Full" with time left: wait and double the next wait.
    assert_eq!(
        push_timeout_step(10, 1_000, 100, Err(Error::WouldBlock)),
        PushTimeoutStep::SleepThenRetry { sleep_ns: 100, next_backoff_ns: 200 }
    );
    assert_eq!(
        push_timeout_step(0, 1_000_000_000, 800_000, Err(Error::CapacityExceeded)),
        PushTimeoutStep::SleepThenRetry { sleep_ns: 800_000, next_backoff_ns: MAX_BACKOFF_NS }
    );
    // The wait would overrun the timeout.
    assert_eq!(
        push_timeout_step(950, 1_000, 100, Err(Error::WouldBlock)),
        PushTimeoutStep::Finish(Err(Error::Timeout))
    );
    // The clock has already passed the timeout: no underflow, a timeout.
    assert_eq!(
        push_timeout_step(5_000, 1_000, 100, Err(Error::CapacityExceeded)),
        PushTimeoutStep::Finish(Err(Error::Timeout))
    );
    // Any other error is passed on at once.
    assert_eq!(
        push_timeout_step(10, 1_000, 100, Err(Error::Closed)),
        PushTimeoutStep::Finish(Err(Error::Closed))
    );
}

#[test]
fn test_pop_timeout_steps() {
    assert_eq!(pop_timeout_step(10, 1_000, 50, Some(7)), PopTimeoutStep::Finish(Some(7)));
    assert_eq!(
        pop_timeout_step::<i32>(10, 1_000, 50, None),
        PopTimeoutStep::SleepThenRetry { sleep_ns: 50, next_backoff_ns: 100 }
    );
    assert_eq!(pop_timeout_step::<i32>(960, 1_000, 50, None), PopTimeoutStep::Finish(None));
    assert_eq!(pop_timeout_step::<i32>(2_000, 1_000, 50, None), PopTimeoutStep::Finish(None));
}
