//! A last-in, first-out stack in the manner of Treiber's stack, with
//! performance metrics.
//!
//! The stack's view is the sequence of its elements from the bottom (index 0)
//! to the top (the last index, the next to pop). Operations take the stack by
//! `&mut`, so a push or pop never has to retry, and no contention is recorded.
//! Operations are recorded in the metrics only while collection is on.

use crate::bounded::{back, without_back};
use crate::metrics::clock::{clock_elapsed, clock_now, duration_total_nanos};
use crate::metrics::{AtomicMetrics, MetricsCollector, PerformanceMetrics};
use vstd::prelude::*;

verus! {

/// A stack of unbounded size.
#[derive(Debug)]
pub struct LockFreeStack<T> {
    items: Vec<T>,
    metrics: AtomicMetrics,
    metrics_enabled: bool,
}

impl<T> View for LockFreeStack<T> {
    type V = Seq<T>;

    closed spec fn view(&self) -> Seq<T> {
        self.items@
    }
}

impl<T> LockFreeStack<T> {
    /// The stack's running metrics.
    pub closed spec fn metrics_state(&self) -> AtomicMetrics {
        self.metrics
    }

    /// Whether metrics collection is switched on.
    pub closed spec fn metrics_on(&self) -> bool {
        self.metrics_enabled
    }

    /// Create a new, empty stack with metrics collection switched on.
    pub fn new() -> (r: Self)
        ensures
            r@ == Seq::<T>::empty(),
            r.metrics_state() == AtomicMetrics::zeroed(),
            r.metrics_on(),
    {
        LockFreeStack { items: Vec::new(), metrics: AtomicMetrics::default(), metrics_enabled: true }
    }

    /// Push a value on top of the stack. While metrics collection is on, the
    /// success and its duration are recorded in the metrics; while it is off,
    /// the metrics stay.
    pub fn push(&mut self, value: T)
        ensures
            final(self)@ == old(self)@.push(value),
            final(self).metrics_on() == old(self).metrics_on(),
            !old(self).metrics_on() ==> final(self).metrics_state() == old(self).metrics_state(),
            old(self).metrics_on() ==> exists|ns: u64|
                final(self).metrics_state() == old(self).metrics_state().after_success(ns),
    {
        let start = clock_now();
        self.items.push(value);
        if self.metrics_enabled {
            let elapsed = clock_elapsed(&start);
            self.metrics.record_success(elapsed);
            assert(self.metrics_state() == old(self).metrics_state().after_success(
                duration_total_nanos(elapsed) as u64,
            ));
        }
    }

    /// Pop the value on top of the stack: the one pushed last. `None` when
    /// the stack is empty. While metrics collection is on, a failure is
    /// recorded in the metrics, and so is a success together with its
    /// duration; while it is off, the metrics stay.
    pub fn pop(&mut self) -> (r: Option<T>)
        ensures
            r == back(old(self)@),
            final(self)@ == without_back(old(self)@),
            final(self).metrics_on() == old(self).metrics_on(),
            !old(self).metrics_on() ==> final(self).metrics_state() == old(self).metrics_state(),
            old(self).metrics_on() && r is None ==> final(self).metrics_state() == old(
                self,
            ).metrics_state().after_failure(),
            old(self).metrics_on() && r is Some ==> exists|ns: u64|
                final(self).metrics_state() == old(self).metrics_state().after_success(ns),
    {
        let start = clock_now();
        match self.items.pop() {
            None => {
                if self.metrics_enabled {
                    self.metrics.record_failure();
                }
                None
            },
            Some(value) => {
                if self.metrics_enabled {
                    let elapsed = clock_elapsed(&start);
                    self.metrics.record_success(elapsed);
                    assert(self.metrics_state() == old(self).metrics_state().after_success(
                        duration_total_nanos(elapsed) as u64,
                    ));
                }
                Some(value)
            },
        }
    }

    /// Whether the stack holds no element.
    pub fn is_empty(&self) -> (b: bool)
        ensures
            b == (self@.len() == 0),
    {
        self.items.len() == 0
    }

    /// The number of elements in the stack.
    pub fn len(&self) -> (n: usize)
        ensures
            n == self@.len(),
    {
        self.items.len()
    }

    /// Pop up to `max_count` values, top first. While metrics collection is
    /// on, each pop is recorded in the metrics, including the failed one that
    /// ends the batch when the stack runs empty first.
    pub fn pop_batch(&mut self, max_count: usize) -> (r: Vec<T>)
        ensures
            final(self).metrics_on() == old(self).metrics_on(),
            r@.len() == if max_count <= old(self)@.len() {
                max_count as nat
            } else {
                old(self)@.len()
            },
            r@ == old(self)@.skip(old(self)@.len() - r@.len()).reverse(),
            final(self)@ == old(self)@.take(old(self)@.len() - r@.len()),
            !old(self).metrics_on() ==> final(self).metrics_state() == old(self).metrics_state(),
            old(self).metrics_on() ==> exists|ns: Seq<u64>|
                ns.len() == r@.len() && final(self).metrics_state() == if r@.len() < max_count {
                    old(self).metrics_state().after_successes(ns).after_failure()
                } else {
                    old(self).metrics_state().after_successes(ns)
                },
    {
        let mut result: Vec<T> = Vec::new();
        let mut i: usize = 0;
        let ghost mut times: Seq<u64> = Seq::empty();
        let ghost n = old(self)@.len();
        proof {
            assert(old(self)@.skip(n as int) =~= Seq::<T>::empty());
            assert(old(self)@.take(n as int) =~= old(self)@);
        }
        while i < max_count
            invariant_except_break
                self.metrics_enabled == old(self).metrics_enabled,
                i <= max_count,
                i <= n,
                n == old(self)@.len(),
                result@.len() == i,
                times.len() == i,
                result@ == old(self)@.skip(n - i).reverse(),
                self@ == old(self)@.take(n - i),
                self.metrics == if self.metrics_enabled {
                    old(self).metrics.after_successes(times)
                } else {
                    old(self).metrics
                },
            ensures
                self.metrics_enabled == old(self).metrics_enabled,
                result@.len() == if max_count <= n {
                    max_count as nat
                } else {
                    n
                },
                result@ == old(self)@.skip(n - result@.len()).reverse(),
                self@ == old(self)@.take(n - result@.len()),
                times.len() == result@.len(),
                self.metrics == if !self.metrics_enabled {
                    old(self).metrics
                } else if result@.len() < max_count {
                    old(self).metrics.after_successes(times).after_failure()
                } else {
                    old(self).metrics.after_successes(times)
                },
            decreases max_count - i,
        {
            let ghost before = self.metrics;
            match self.pop() {
                Some(value) => {
                    proof {
                        let ns = if self.metrics_enabled {
                            choose|ns: u64| self.metrics == before.after_success(ns)
                        } else {
                            0
                        };
                        assert(times.push(ns).drop_last() =~= times);
                        times = times.push(ns);
                        assert(old(self)@.skip(n - i - 1) =~= old(self)@.skip(n - i).insert(
                            0,
                            value,
                        ));
                        assert(old(self)@.skip(n - i - 1).reverse() =~= old(self)@.skip(
                            n - i,
                        ).reverse().push(value));
                        assert(self@ =~= old(self)@.take(n - i - 1));
                    }
                    result.push(value);
                    i = i + 1;
                },
                None => {
                    break;
                },
            }
        }
        result
    }

    /// Push the values in order; the last one ends on top. While metrics
    /// collection is on, each push is recorded in the metrics.
    pub fn push_batch(&mut self, values: Vec<T>)
        ensures
            final(self)@ == old(self)@ + values@,
            final(self).metrics_on() == old(self).metrics_on(),
            !old(self).metrics_on() ==> final(self).metrics_state() == old(self).metrics_state(),
            old(self).metrics_on() ==> exists|ns: Seq<u64>|
                ns.len() == values@.len() && final(self).metrics_state() == old(
                    self,
                ).metrics_state().after_successes(ns),
    {
        let ghost vals = values@;
        assert(values.len() == vals.len());
        let mut rest = crate::bounded::reverse_vec(values);
        let mut pushed: usize = 0;
        let ghost mut times: Seq<u64> = Seq::empty();
        proof {
            assert(vals.skip(0) =~= vals);
            assert(old(self)@ + vals.take(0) =~= old(self)@);
        }
        while rest.len() > 0
            invariant
                self.metrics_enabled == old(self).metrics_enabled,
                rest@.reverse() == vals.skip(pushed as int),
                rest@.len() + pushed == vals.len(),
                vals.len() <= usize::MAX,
                self@ == old(self)@ + vals.take(pushed as int),
                times.len() == pushed,
                self.metrics == if self.metrics_enabled {
                    old(self).metrics.after_successes(times)
                } else {
                    old(self).metrics
                },
            decreases rest.len(),
        {
            let ghost before_rest = rest@;
            let ghost before = self.metrics;
            let value = rest.pop().unwrap();
            proof {
                assert(before_rest.reverse().len() == before_rest.len());
                assert(before_rest.reverse()[0] == before_rest[before_rest.len() - 1]);
                assert(vals.skip(pushed as int)[0] == vals[pushed as int]);
                assert(rest@.reverse() =~= vals.skip(pushed + 1)) by {
                    assert forall|i: int| 0 <= i < rest@.len() implies rest@.reverse()[i]
                        == vals.skip(pushed + 1)[i] by {
                        assert(before_rest.reverse()[i + 1] == before_rest[before_rest.len() - 2
                            - i]);
                    }
                }
                assert(vals.take(pushed + 1) =~= vals.take(pushed as int).push(value));
            }
            self.push(value);
            proof {
                let ns = if self.metrics_enabled {
                    choose|ns: u64| self.metrics == before.after_success(ns)
                } else {
                    0
                };
                assert(times.push(ns).drop_last() =~= times);
                times = times.push(ns);
            }
            pushed = pushed + 1;
        }
        assert(vals.take(pushed as int) =~= vals);
    }
}

impl<T> Default for LockFreeStack<T> {
    fn default() -> (r: Self)
        ensures
            r@ == Seq::<T>::empty(),
            r.metrics_state() == AtomicMetrics::zeroed(),
            r.metrics_on(),
    {
        Self::new()
    }
}

impl<T> MetricsCollector for LockFreeStack<T> {
    fn metrics(&self) -> (m: PerformanceMetrics)
        ensures
            m == self.metrics_state().snapshot_of(),
    {
        self.metrics.snapshot()
    }

    fn reset_metrics(&mut self)
        ensures
            final(self).metrics_state() == old(self).metrics_state().after_reset(),
            final(self).metrics_on() == old(self).metrics_on(),
            final(self)@ == old(self)@,
    {
        self.metrics.reset();
    }

    fn set_metrics_enabled(&mut self, enabled: bool)
        ensures
            final(self).metrics_on() == enabled,
            final(self).metrics_state() == old(self).metrics_state(),
            final(self)@ == old(self)@,
    {
        self.metrics_enabled = enabled;
    }

    fn is_metrics_enabled(&self) -> (b: bool)
        ensures
            b == self.metrics_on(),
    {
        self.metrics_enabled
    }
}

} // verus!
