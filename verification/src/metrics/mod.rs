//! Performance metrics: counters of operations and their outcomes, operation
//! times and memory usage, kept by the data structures of this crate.
//!
//! Counters wrap around at `u64::MAX`, as atomic fetch-and-add counters do.

pub mod clock;

use crate::metrics::clock::{duration_as_nanos, duration_from_nanos, duration_total_nanos};
use std::time::Duration;
use vstd::prelude::*;

verus! {

/// `x + y`, wrapped around modulo 2^64.
pub open spec fn wrapping_sum(x: u64, y: u64) -> u64 {
    if x + y <= u64::MAX {
        (x + y) as u64
    } else {
        (x + y - u64::MAX - 1) as u64
    }
}

fn wrapping_add_u64(x: u64, y: u64) -> (r: u64)
    ensures
        r == wrapping_sum(x, y),
{
    if x <= u64::MAX - y {
        x + y
    } else {
        y - (u64::MAX - x) - 1
    }
}

/// A snapshot of performance metrics.
#[derive(Debug, Default, Clone, Copy)]
pub struct PerformanceMetrics {
    /// Total number of operations performed
    pub total_operations: u64,
    /// Number of successful operations
    pub successful_operations: u64,
    /// Number of failed operations
    pub failed_operations: u64,
    /// Number of contended operations (had to wait/retry)
    pub contended_operations: u64,
    /// Average operation time in nanoseconds
    pub avg_operation_time_ns: u64,
    /// Maximum operation time in nanoseconds
    pub max_operation_time_ns: u64,
    /// Current memory usage in bytes
    pub memory_usage_bytes: usize,
    /// Peak memory usage in bytes
    pub peak_memory_usage_bytes: usize,
}

impl PerformanceMetrics {
    /// The average operation time as a `Duration`.
    pub fn avg_operation_time(&self) -> (d: Duration)
        ensures
            duration_total_nanos(d) == self.avg_operation_time_ns as u128,
    {
        duration_from_nanos(self.avg_operation_time_ns)
    }

    /// The maximum operation time as a `Duration`.
    pub fn max_operation_time(&self) -> (d: Duration)
        ensures
            duration_total_nanos(d) == self.max_operation_time_ns as u128,
    {
        duration_from_nanos(self.max_operation_time_ns)
    }
}

/// The running counters from which snapshots are taken.
#[derive(Debug)]
pub struct AtomicMetrics {
    pub total_operations: u64,
    pub successful_operations: u64,
    pub failed_operations: u64,
    pub contended_operations: u64,
    pub total_time_ns: u64,
    pub max_time_ns: u64,
    pub memory_usage: usize,
    pub peak_memory_usage: usize,
}

impl AtomicMetrics {
    /// The counters after a successful operation that took `ns` nanoseconds.
    pub open spec fn after_success(self, ns: u64) -> AtomicMetrics {
        AtomicMetrics {
            total_operations: wrapping_sum(self.total_operations, 1),
            successful_operations: wrapping_sum(self.successful_operations, 1),
            total_time_ns: wrapping_sum(self.total_time_ns, ns),
            max_time_ns: if ns > self.max_time_ns {
                ns
            } else {
                self.max_time_ns
            },
            ..self
        }
    }

    /// The counters after successful operations that took `ns[0]`, `ns[1]`,
    /// ... nanoseconds, in that order.
    pub open spec fn after_successes(self, ns: Seq<u64>) -> AtomicMetrics
        decreases ns.len(),
    {
        if ns.len() == 0 {
            self
        } else {
            self.after_successes(ns.drop_last()).after_success(ns.last())
        }
    }

    /// The counters after a failed operation.
    pub open spec fn after_failure(self) -> AtomicMetrics {
        AtomicMetrics {
            total_operations: wrapping_sum(self.total_operations, 1),
            failed_operations: wrapping_sum(self.failed_operations, 1),
            ..self
        }
    }

    /// The counters after a contended operation.
    pub open spec fn after_contention(self) -> AtomicMetrics {
        AtomicMetrics { contended_operations: wrapping_sum(self.contended_operations, 1), ..self }
    }

    /// The counters after the memory usage became `usage` bytes.
    pub open spec fn after_memory_usage(self, usage: usize) -> AtomicMetrics {
        AtomicMetrics {
            memory_usage: usage,
            peak_memory_usage: if usage > self.peak_memory_usage {
                usage
            } else {
                self.peak_memory_usage
            },
            ..self
        }
    }

    /// The counters after a reset: every operation counter and time is zero,
    /// the memory usage figures are kept.
    pub open spec fn after_reset(self) -> AtomicMetrics {
        AtomicMetrics {
            total_operations: 0,
            successful_operations: 0,
            failed_operations: 0,
            contended_operations: 0,
            total_time_ns: 0,
            max_time_ns: 0,
            ..self
        }
    }

    /// The snapshot that the counters give.
    pub open spec fn snapshot_of(self) -> PerformanceMetrics {
        PerformanceMetrics {
            total_operations: self.total_operations,
            successful_operations: self.successful_operations,
            failed_operations: self.failed_operations,
            contended_operations: self.contended_operations,
            avg_operation_time_ns: if self.total_operations > 0 {
                (self.total_time_ns / self.total_operations) as u64
            } else {
                0
            },
            max_operation_time_ns: self.max_time_ns,
            memory_usage_bytes: self.memory_usage,
            peak_memory_usage_bytes: self.peak_memory_usage,
        }
    }

    /// All counters at zero.
    pub open spec fn zeroed() -> AtomicMetrics {
        AtomicMetrics {
            total_operations: 0,
            successful_operations: 0,
            failed_operations: 0,
            contended_operations: 0,
            total_time_ns: 0,
            max_time_ns: 0,
            memory_usage: 0,
            peak_memory_usage: 0,
        }
    }

    /// Record a successful operation with its duration (whose nanoseconds are
    /// truncated to 64 bits).
    pub fn record_success(&mut self, duration: Duration)
        ensures
            *final(self) == old(self).after_success(duration_total_nanos(duration) as u64),
    {
        let duration_ns = duration_as_nanos(&duration) as u64;
        self.total_operations = wrapping_add_u64(self.total_operations, 1);
        self.successful_operations = wrapping_add_u64(self.successful_operations, 1);
        self.total_time_ns = wrapping_add_u64(self.total_time_ns, duration_ns);
        if duration_ns > self.max_time_ns {
            self.max_time_ns = duration_ns;
        }
    }

    /// Record a failed operation.
    pub fn record_failure(&mut self)
        ensures
            *final(self) == old(self).after_failure(),
    {
        self.total_operations = wrapping_add_u64(self.total_operations, 1);
        self.failed_operations = wrapping_add_u64(self.failed_operations, 1);
    }

    /// Record a contended operation.
    pub fn record_contention(&mut self)
        ensures
            *final(self) == old(self).after_contention(),
    {
        self.contended_operations = wrapping_add_u64(self.contended_operations, 1);
    }

    /// Update the memory usage, and the peak if the new usage exceeds it.
    pub fn update_memory_usage(&mut self, usage: usize)
        ensures
            *final(self) == old(self).after_memory_usage(usage),
    {
        self.memory_usage = usage;
        if usage > self.peak_memory_usage {
            self.peak_memory_usage = usage;
        }
    }

    /// A snapshot of the current metrics.
    pub fn snapshot(&self) -> (m: PerformanceMetrics)
        ensures
            m == self.snapshot_of(),
    {
        let total_ops = self.total_operations;
        PerformanceMetrics {
            total_operations: total_ops,
            successful_operations: self.successful_operations,
            failed_operations: self.failed_operations,
            contended_operations: self.contended_operations,
            avg_operation_time_ns: if total_ops > 0 {
                self.total_time_ns / total_ops
            } else {
                0
            },
            max_operation_time_ns: self.max_time_ns,
            memory_usage_bytes: self.memory_usage,
            peak_memory_usage_bytes: self.peak_memory_usage,
        }
    }

    /// Reset all operation metrics; the memory usage figures reflect the
    /// current state and are kept.
    pub fn reset(&mut self)
        ensures
            *final(self) == old(self).after_reset(),
    {
        self.total_operations = 0;
        self.successful_operations = 0;
        self.failed_operations = 0;
        self.contended_operations = 0;
        self.total_time_ns = 0;
        self.max_time_ns = 0;
    }
}

impl Default for AtomicMetrics {
    fn default() -> (m: Self)
        ensures
            m == AtomicMetrics::zeroed(),
    {
        AtomicMetrics {
            total_operations: 0,
            successful_operations: 0,
            failed_operations: 0,
            contended_operations: 0,
            total_time_ns: 0,
            max_time_ns: 0,
            memory_usage: 0,
            peak_memory_usage: 0,
        }
    }
}

/// Every recorded operation counts as either a success or a failure: while
/// the counters stay below `u64::MAX`, the total is the sum of the two.
pub proof fn law_outcomes_partition_operations(m: AtomicMetrics, ns: u64)
    requires
        m.total_operations == m.successful_operations + m.failed_operations,
        m.total_operations < u64::MAX,
    ensures
        m.after_success(ns).total_operations == m.after_success(ns).successful_operations
            + m.after_success(ns).failed_operations,
        m.after_failure().total_operations == m.after_failure().successful_operations
            + m.after_failure().failed_operations,
        m.after_contention().total_operations == m.after_contention().successful_operations
            + m.after_contention().failed_operations,
{
}

/// A reset, or recording memory usage, leaves no operation recorded and
/// no operation time in the snapshot; the peak memory usage never falls.
pub proof fn law_reset_clears_operations(m: AtomicMetrics, usage: usize)
    ensures
        m.after_reset().snapshot_of().total_operations == 0,
        m.after_reset().snapshot_of().avg_operation_time_ns == 0,
        m.after_reset().snapshot_of().max_operation_time_ns == 0,
        m.after_reset().snapshot_of().memory_usage_bytes == m.memory_usage,
        m.after_memory_usage(usage).peak_memory_usage >= m.peak_memory_usage,
        m.after_memory_usage(usage).peak_memory_usage >= usage,
{
}

/// The maximum operation time recorded is at least the time of every
/// success recorded since the last reset, and never falls.
pub proof fn law_max_time_dominates(m: AtomicMetrics, ns: Seq<u64>, i: int)
    requires
        0 <= i < ns.len(),
    ensures
        m.after_successes(ns).max_time_ns >= ns[i],
        m.after_successes(ns).max_time_ns >= m.max_time_ns,
    decreases ns.len(),
{
    lemma_max_time_never_falls(m, ns);
    if i < ns.len() - 1 {
        law_max_time_dominates(m, ns.drop_last(), i);
    }
}

proof fn lemma_max_time_never_falls(m: AtomicMetrics, ns: Seq<u64>)
    ensures
        m.after_successes(ns).max_time_ns >= m.max_time_ns,
    decreases ns.len(),
{
    if ns.len() > 0 {
        lemma_max_time_never_falls(m, ns.drop_last());
    }
}

/// Data structures that collect performance metrics.
pub trait MetricsCollector {
    /// Get current performance metrics.
    fn metrics(&self) -> PerformanceMetrics;

    /// Reset all metrics.
    fn reset_metrics(&mut self);

    /// Enable or disable metrics collection.
    fn set_metrics_enabled(&mut self, enabled: bool);

    /// Check if metrics collection is enabled.
    fn is_metrics_enabled(&self) -> bool;
}

} // verus!
