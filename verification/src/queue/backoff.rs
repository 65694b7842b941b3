//! The decisions of the queues' retry-with-timeout operations. An operation
//! that finds the queue full (or empty) waits and retries; the time it waits
//! starts small and doubles after each retry, up to one millisecond, and it
//! gives up when the next wait would not fit in the time that remains. After
//! each attempt it decides whether to return the attempt's outcome, to wait
//! and retry, or to time out. The clock and the waiting belong to the caller,
//! which hands in the nanoseconds elapsed; this module decides.

use crate::{Error, Result};
use vstd::prelude::*;

verus! {

/// The first wait of a push that retries, in nanoseconds.
pub const PUSH_INITIAL_BACKOFF_NS: u64 = 100;

/// The first wait of a pop that retries, in nanoseconds.
pub const POP_INITIAL_BACKOFF_NS: u64 = 50;

/// The longest wait between two attempts, in nanoseconds (one millisecond).
pub const MAX_BACKOFF_NS: u64 = 1_000_000;

/// What to do after an attempt that found the queue full (or empty).
#[derive(Debug, Clone, Copy, PartialEq, Eq, Structural)]
pub enum RetryStep {
    /// The next wait does not fit in the remaining time: stop retrying.
    GiveUp,
    /// Wait `sleep_ns` nanoseconds, retry, and wait `next_backoff_ns` after
    /// the next failed attempt.
    SleepThenRetry { sleep_ns: u64, next_backoff_ns: u64 },
}

/// The wait that follows a wait of `backoff_ns`: twice as long, but at most
/// one millisecond.
pub open spec fn next_backoff(backoff_ns: u64) -> u64 {
    if 2 * backoff_ns <= MAX_BACKOFF_NS {
        (2 * backoff_ns) as u64
    } else {
        MAX_BACKOFF_NS
    }
}

/// The step after a failed attempt, with `remaining_ns` nanoseconds left
/// before the timeout and a current wait of `backoff_ns`.
pub open spec fn retry_step_spec(remaining_ns: u128, backoff_ns: u64) -> RetryStep {
    if backoff_ns > remaining_ns {
        RetryStep::GiveUp
    } else {
        RetryStep::SleepThenRetry { sleep_ns: backoff_ns, next_backoff_ns: next_backoff(backoff_ns) }
    }
}

/// Decide what follows a failed attempt.
pub fn retry_step(remaining_ns: u128, backoff_ns: u64) -> (r: RetryStep)
    requires
        backoff_ns <= MAX_BACKOFF_NS,
    ensures
        r == retry_step_spec(remaining_ns, backoff_ns),
{
    if backoff_ns as u128 > remaining_ns {
        RetryStep::GiveUp
    } else {
        let doubled = backoff_ns * 2;
        let next = if doubled <= MAX_BACKOFF_NS {
            doubled
        } else {
            MAX_BACKOFF_NS
        };
        RetryStep::SleepThenRetry { sleep_ns: backoff_ns, next_backoff_ns: next }
    }
}

/// A retry never waits longer than one millisecond, never waits longer than
/// the remaining time, and the waits never shrink.
pub proof fn law_backoff_bounded(remaining_ns: u128, backoff_ns: u64)
    requires
        backoff_ns <= MAX_BACKOFF_NS,
    ensures
        retry_step_spec(remaining_ns, backoff_ns) matches RetryStep::SleepThenRetry {
            sleep_ns,
            next_backoff_ns,
        } ==> sleep_ns <= remaining_ns && sleep_ns <= MAX_BACKOFF_NS && sleep_ns <= next_backoff_ns
            <= MAX_BACKOFF_NS,
{
}

/// Whether an operation started `elapsed_ns` nanoseconds ago may still make
/// an attempt under a timeout of `timeout_ns` nanoseconds.
pub fn within_deadline(elapsed_ns: u128, timeout_ns: u128) -> (b: bool)
    ensures
        b == (elapsed_ns < timeout_ns),
{
    elapsed_ns < timeout_ns
}

/// The time left before the timeout; none once it has passed.
pub open spec fn remaining_spec(elapsed_ns: u128, timeout_ns: u128) -> u128 {
    if elapsed_ns < timeout_ns {
        (timeout_ns - elapsed_ns) as u128
    } else {
        0
    }
}

/// The errors of a push that mean "full, try again later".
pub open spec fn is_full_error(e: Error) -> bool {
    e == Error::WouldBlock || e == Error::CapacityExceeded
}

/// What a push with a timeout does after an attempt.
#[derive(Debug, PartialEq, Eq)]
pub enum PushTimeoutStep {
    /// Stop, and return this outcome.
    Finish(Result<()>),
    /// Wait `sleep_ns` nanoseconds, retry, and wait `next_backoff_ns` after
    /// the next failed attempt.
    SleepThenRetry { sleep_ns: u64, next_backoff_ns: u64 },
}

/// What a pop with a timeout does after an attempt.
#[derive(Debug, PartialEq, Eq)]
pub enum PopTimeoutStep<T> {
    /// Stop, and return this outcome.
    Finish(Option<T>),
    /// Wait `sleep_ns` nanoseconds, retry, and wait `next_backoff_ns` after
    /// the next failed attempt.
    SleepThenRetry { sleep_ns: u64, next_backoff_ns: u64 },
}

/// The step after a push attempt that returned `attempt`, `elapsed_ns`
/// nanoseconds after the start, under a timeout of `timeout_ns` and with a
/// current wait of `backoff_ns`: a success, or an error other than "full",
/// is the outcome; on "full" the operation waits and retries while the wait
/// fits in the time that remains, and times out otherwise.
pub open spec fn push_timeout_step_spec(
    elapsed_ns: u128,
    timeout_ns: u128,
    backoff_ns: u64,
    attempt: Result<()>,
) -> PushTimeoutStep {
    match attempt {
        Ok(()) => PushTimeoutStep::Finish(Ok(())),
        Err(e) => if is_full_error(e) {
            match retry_step_spec(remaining_spec(elapsed_ns, timeout_ns), backoff_ns) {
                RetryStep::GiveUp => PushTimeoutStep::Finish(Err(Error::Timeout)),
                RetryStep::SleepThenRetry { sleep_ns, next_backoff_ns } => {
                    PushTimeoutStep::SleepThenRetry { sleep_ns, next_backoff_ns }
                },
            }
        } else {
            PushTimeoutStep::Finish(Err(e))
        },
    }
}

/// The step after a pop attempt that returned `attempt`: a value is the
/// outcome; on an empty queue the operation waits and retries while the
/// wait fits in the time that remains, and gives up with `None` otherwise.
pub open spec fn pop_timeout_step_spec<T>(
    elapsed_ns: u128,
    timeout_ns: u128,
    backoff_ns: u64,
    attempt: Option<T>,
) -> PopTimeoutStep<T> {
    match attempt {
        Some(v) => PopTimeoutStep::Finish(Some(v)),
        None => match retry_step_spec(remaining_spec(elapsed_ns, timeout_ns), backoff_ns) {
            RetryStep::GiveUp => PopTimeoutStep::Finish(None),
            RetryStep::SleepThenRetry { sleep_ns, next_backoff_ns } => {
                PopTimeoutStep::SleepThenRetry { sleep_ns, next_backoff_ns }
            },
        },
    }
}

fn remaining(elapsed_ns: u128, timeout_ns: u128) -> (r: u128)
    ensures
        r == remaining_spec(elapsed_ns, timeout_ns),
{
    if elapsed_ns < timeout_ns {
        timeout_ns - elapsed_ns
    } else {
        0
    }
}

/// Decide what a push with a timeout does after an attempt.
pub fn push_timeout_step(
    elapsed_ns: u128,
    timeout_ns: u128,
    backoff_ns: u64,
    attempt: Result<()>,
) -> (r: PushTimeoutStep)
    requires
        backoff_ns <= MAX_BACKOFF_NS,
    ensures
        r == push_timeout_step_spec(elapsed_ns, timeout_ns, backoff_ns, attempt),
{
    match attempt {
        Ok(()) => PushTimeoutStep::Finish(Ok(())),
        Err(e) => {
            let full = match e {
                Error::WouldBlock => true,
                Error::CapacityExceeded => true,
                _ => false,
            };
            if full {
                match retry_step(remaining(elapsed_ns, timeout_ns), backoff_ns) {
                    RetryStep::GiveUp => PushTimeoutStep::Finish(Err(Error::Timeout)),
                    RetryStep::SleepThenRetry { sleep_ns, next_backoff_ns } => {
                        PushTimeoutStep::SleepThenRetry { sleep_ns, next_backoff_ns }
                    },
                }
            } else {
                PushTimeoutStep::Finish(Err(e))
            }
        },
    }
}

/// Decide what a pop with a timeout does after an attempt.
pub fn pop_timeout_step<T>(
    elapsed_ns: u128,
    timeout_ns: u128,
    backoff_ns: u64,
    attempt: Option<T>,
) -> (r: PopTimeoutStep<T>)
    requires
        backoff_ns <= MAX_BACKOFF_NS,
    ensures
        r == pop_timeout_step_spec(elapsed_ns, timeout_ns, backoff_ns, attempt),
{
    match attempt {
        Some(v) => PopTimeoutStep::Finish(Some(v)),
        None => match retry_step(remaining(elapsed_ns, timeout_ns), backoff_ns) {
            RetryStep::GiveUp => PopTimeoutStep::Finish(None),
            RetryStep::SleepThenRetry { sleep_ns, next_backoff_ns } => {
                PopTimeoutStep::SleepThenRetry { sleep_ns, next_backoff_ns }
            },
        },
    }
}

/// With a wait that is not zero (the waits start at 50 or 100 nanoseconds
/// and never shrink), a timed operation that decides to wait and retry
/// finishes its wait no later than the timeout, and never waits longer than
/// one millisecond.
pub proof fn law_timed_wait_fits(
    elapsed_ns: u128,
    timeout_ns: u128,
    backoff_ns: u64,
    attempt: Result<()>,
)
    requires
        0 < backoff_ns <= MAX_BACKOFF_NS,
    ensures
        push_timeout_step_spec(elapsed_ns, timeout_ns, backoff_ns, attempt) matches PushTimeoutStep::SleepThenRetry {
            sleep_ns,
            ..
        } ==> elapsed_ns + sleep_ns <= timeout_ns && sleep_ns <= MAX_BACKOFF_NS,
        pop_timeout_step_spec::<()>(elapsed_ns, timeout_ns, backoff_ns, None) matches PopTimeoutStep::SleepThenRetry {
            sleep_ns,
            ..
        } ==> elapsed_ns + sleep_ns <= timeout_ns && sleep_ns <= MAX_BACKOFF_NS,
{
    let rem = remaining_spec(elapsed_ns, timeout_ns);
    if backoff_ns <= rem {
        assert(retry_step_spec(rem, backoff_ns) == RetryStep::SleepThenRetry {
            sleep_ns: backoff_ns,
            next_backoff_ns: next_backoff(backoff_ns),
        });
        assert(elapsed_ns < timeout_ns);
    }
}

} // verus!
