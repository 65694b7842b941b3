//! The default bounded multi-producer, multi-consumer queue. It holds exactly
//! the requested number of elements, and, while metrics collection is on,
//! records the outcome and duration of each push and pop in its performance
//! metrics.
//!
//! The queue's view is the sequence of its elements from the oldest (index 0,
//! the next to pop) to the newest. Operations take the queue by `&mut`.

use crate::bounded::{bounded_push, bounded_push_result, fitting, front, reverse_vec, without_front};
use crate::metrics::clock::{clock_elapsed, clock_now, duration_total_nanos};
use crate::metrics::{AtomicMetrics, MetricsCollector, PerformanceMetrics};
use crate::ring::RingBuffer;
use crate::{Error, Result};
use vstd::prelude::*;

verus! {

/// A simple bounded MPMC queue.
#[derive(Debug)]
pub struct MpmcQueue<T> {
    buffer: RingBuffer<T>,
    capacity: usize,
    metrics: AtomicMetrics,
    metrics_enabled: bool,
}

impl<T> View for MpmcQueue<T> {
    type V = Seq<T>;

    closed spec fn view(&self) -> Seq<T> {
        self.buffer.view()
    }
}

impl<T> MpmcQueue<T> {
    /// The queue's internal invariant: the buffer is well formed and has
    /// `capacity` slots.
    pub closed spec fn wf(&self) -> bool {
        &&& self.buffer.wf()
        &&& self.buffer.capacity_spec() == self.capacity
    }

    /// The maximum number of elements the queue holds.
    pub closed spec fn capacity_spec(&self) -> nat {
        self.capacity as nat
    }

    /// The queue's running metrics.
    pub closed spec fn metrics_state(&self) -> AtomicMetrics {
        self.metrics
    }

    /// Whether metrics collection is switched on.
    pub closed spec fn metrics_on(&self) -> bool {
        self.metrics_enabled
    }

    /// Create a new queue that holds up to `capacity` elements, with metrics
    /// collection switched on.
    pub fn new(capacity: usize) -> (r: Self)
        requires
            capacity > 0,
        ensures
            r.wf(),
            r@ == Seq::<T>::empty(),
            r.capacity_spec() == capacity,
            r.metrics_state() == AtomicMetrics::zeroed(),
            r.metrics_on(),
    {
        MpmcQueue {
            buffer: RingBuffer::new(capacity),
            capacity,
            metrics: AtomicMetrics::default(),
            metrics_enabled: true,
        }
    }

    /// Push a value at the back of the queue. Fails with `Error::WouldBlock`,
    /// leaving the queue as it was, when it is full. While metrics collection
    /// is on, a failure is recorded in the metrics, and so is a success
    /// together with its duration; while it is off, the metrics stay.
    pub fn push(&mut self, value: T) -> (r: Result<()>)
        requires
            old(self).wf(),
        ensures
            final(self).wf(),
            final(self).capacity_spec() == old(self).capacity_spec(),
            final(self).metrics_on() == old(self).metrics_on(),
            final(self)@ == bounded_push(old(self)@, old(self).capacity_spec(), value),
            r == bounded_push_result(old(self)@, old(self).capacity_spec()),
            !old(self).metrics_on() ==> final(self).metrics_state() == old(self).metrics_state(),
            old(self).metrics_on() && r is Err ==> final(self).metrics_state() == old(
                self,
            ).metrics_state().after_failure(),
            old(self).metrics_on() && r is Ok ==> exists|ns: u64|
                final(self).metrics_state() == old(self).metrics_state().after_success(ns),
    {
        let start = clock_now();
        if self.buffer.len() >= self.capacity {
            if self.metrics_enabled {
                self.metrics.record_failure();
            }
            return Err(Error::WouldBlock);
        }
        self.buffer.push_back(value);
        if self.metrics_enabled {
            let elapsed = clock_elapsed(&start);
            self.metrics.record_success(elapsed);
            assert(self.metrics_state() == old(self).metrics_state().after_success(
                duration_total_nanos(elapsed) as u64,
            ));
        }
        Ok(())
    }

    /// Pop the value at the front of the queue: the oldest one. `None` when
    /// the queue is empty. While metrics collection is on, a failure is
    /// recorded in the metrics, and so is a success together with its
    /// duration; while it is off, the metrics stay.
    pub fn pop(&mut self) -> (r: Option<T>)
        requires
            old(self).wf(),
        ensures
            final(self).wf(),
            final(self).capacity_spec() == old(self).capacity_spec(),
            final(self).metrics_on() == old(self).metrics_on(),
            r == front(old(self)@),
            final(self)@ == without_front(old(self)@),
            !old(self).metrics_on() ==> final(self).metrics_state() == old(self).metrics_state(),
            old(self).metrics_on() && r is None ==> final(self).metrics_state() == old(
                self,
            ).metrics_state().after_failure(),
            old(self).metrics_on() && r is Some ==> exists|ns: u64|
                final(self).metrics_state() == old(self).metrics_state().after_success(ns),
    {
        let start = clock_now();
        if self.buffer.len() == 0 {
            if self.metrics_enabled {
                self.metrics.record_failure();
            }
            return None;
        }
        let value = self.buffer.pop_front();
        if self.metrics_enabled {
            let elapsed = clock_elapsed(&start);
            self.metrics.record_success(elapsed);
            assert(self.metrics_state() == old(self).metrics_state().after_success(
                duration_total_nanos(elapsed) as u64,
            ));
        }
        Some(value)
    }

    /// Same as [`MpmcQueue::push`].
    pub fn try_push(&mut self, value: T) -> (r: Result<()>)
        requires
            old(self).wf(),
        ensures
            final(self).wf(),
            final(self).capacity_spec() == old(self).capacity_spec(),
            final(self).metrics_on() == old(self).metrics_on(),
            final(self)@ == bounded_push(old(self)@, old(self).capacity_spec(), value),
            r == bounded_push_result(old(self)@, old(self).capacity_spec()),
            !old(self).metrics_on() ==> final(self).metrics_state() == old(self).metrics_state(),
            old(self).metrics_on() && r is Err ==> final(self).metrics_state() == old(
                self,
            ).metrics_state().after_failure(),
            old(self).metrics_on() && r is Ok ==> exists|ns: u64|
                final(self).metrics_state() == old(self).metrics_state().after_success(ns),
    {
        self.push(value)
    }

    /// Same as [`MpmcQueue::pop`].
    pub fn try_pop(&mut self) -> (r: Option<T>)
        requires
            old(self).wf(),
        ensures
            final(self).wf(),
            final(self).capacity_spec() == old(self).capacity_spec(),
            final(self).metrics_on() == old(self).metrics_on(),
            r == front(old(self)@),
            final(self)@ == without_front(old(self)@),
            !old(self).metrics_on() ==> final(self).metrics_state() == old(self).metrics_state(),
            old(self).metrics_on() && r is None ==> final(self).metrics_state() == old(
                self,
            ).metrics_state().after_failure(),
            old(self).metrics_on() && r is Some ==> exists|ns: u64|
                final(self).metrics_state() == old(self).metrics_state().after_success(ns),
    {
        self.pop()
    }

    /// A well-formed queue never holds more elements than its capacity.
    pub proof fn lemma_len_within_capacity(&self)
        requires
            self.wf(),
        ensures
            self@.len() <= self.capacity_spec(),
    {
        self.buffer.lemma_len_within_capacity();
    }

    /// The number of elements in the queue.
    pub fn len(&self) -> (n: usize)
        requires
            self.wf(),
        ensures
            n == self@.len(),
            n <= self.capacity_spec(),
    {
        proof {
            self.buffer.lemma_len_within_capacity();
        }
        self.buffer.len()
    }

    /// Whether the queue holds no element.
    pub fn is_empty(&self) -> (b: bool)
        requires
            self.wf(),
        ensures
            b == (self@.len() == 0),
    {
        self.buffer.len() == 0
    }

    /// Push the elements of `values` in order, as many as there is space for,
    /// and return how many were pushed; the rest are dropped. The metrics are
    /// not touched.
    pub fn push_batch(&mut self, values: Vec<T>) -> (n: usize)
        requires
            old(self).wf(),
        ensures
            final(self).wf(),
            final(self).capacity_spec() == old(self).capacity_spec(),
            final(self).metrics_state() == old(self).metrics_state(),
            final(self).metrics_on() == old(self).metrics_on(),
            n == fitting(old(self)@, old(self).capacity_spec(), values@.len()),
            final(self)@ == old(self)@ + values@.take(n as int),
    {
        let ghost vals = values@;
        proof {
            self.buffer.lemma_len_within_capacity();
        }
        let available_space = self.capacity - self.buffer.len();
        let mut rest = reverse_vec(values);
        let mut pushed: usize = 0;
        proof {
            assert(vals.skip(0) =~= vals);
            assert(old(self)@ + vals.take(0) =~= old(self)@);
        }
        while pushed < available_space && rest.len() > 0
            invariant
                self.wf(),
                self.capacity == old(self).capacity,
                self.metrics == old(self).metrics,
                self.metrics_enabled == old(self).metrics_enabled,
                available_space == self.capacity - old(self)@.len(),
                pushed <= available_space,
                rest@.reverse() == vals.skip(pushed as int),
                rest@.len() + pushed == vals.len(),
                self@ == old(self)@ + vals.take(pushed as int),
            decreases rest.len(),
        {
            let ghost before = rest@;
            let value = rest.pop().unwrap();
            proof {
                assert(before.reverse().len() == before.len());
                assert(before.reverse()[0] == before[before.len() - 1]);
                assert(vals.skip(pushed as int)[0] == vals[pushed as int]);
                assert(rest@.reverse() =~= vals.skip(pushed + 1)) by {
                    assert forall|i: int| 0 <= i < rest@.len() implies rest@.reverse()[i]
                        == vals.skip(pushed + 1)[i] by {
                        assert(before.reverse()[i + 1] == before[before.len() - 2 - i]);
                    }
                }
                assert(vals.take(pushed + 1) =~= vals.take(pushed as int).push(value));
            }
            self.buffer.push_back(value);
            pushed = pushed + 1;
        }
        pushed
    }

    /// Pop up to `max_values` values from the front, oldest first. The metrics
    /// are not touched.
    pub fn pop_batch(&mut self, max_values: usize) -> (r: Vec<T>)
        requires
            old(self).wf(),
        ensures
            final(self).wf(),
            final(self).capacity_spec() == old(self).capacity_spec(),
            final(self).metrics_state() == old(self).metrics_state(),
            final(self).metrics_on() == old(self).metrics_on(),
            r@.len() == if max_values <= old(self)@.len() {
                max_values as nat
            } else {
                old(self)@.len()
            },
            r@ == old(self)@.take(r@.len() as int),
            final(self)@ == old(self)@.skip(r@.len() as int),
    {
        let available_items = self.buffer.len();
        let items_to_pop = if max_values < available_items {
            max_values
        } else {
            available_items
        };
        let mut values: Vec<T> = Vec::new();
        let mut i: usize = 0;
        while i < items_to_pop
            invariant
                self.wf(),
                self.capacity == old(self).capacity,
                self.metrics == old(self).metrics,
                self.metrics_enabled == old(self).metrics_enabled,
                items_to_pop <= old(self)@.len(),
                i <= items_to_pop,
                values@ == old(self)@.take(i as int),
                self@ == old(self)@.skip(i as int),
            decreases items_to_pop - i,
        {
            let value = self.buffer.pop_front();
            proof {
                assert(old(self)@.take(i + 1) =~= old(self)@.take(i as int).push(value));
                assert(self@ =~= old(self)@.skip(i + 1));
            }
            values.push(value);
            i = i + 1;
        }
        values
    }
}

impl<T> MetricsCollector for MpmcQueue<T> {
    fn metrics(&self) -> (m: PerformanceMetrics)
        ensures
            m == self.metrics_state().snapshot_of(),
    {
        self.metrics.snapshot()
    }

    fn reset_metrics(&mut self)
        ensures
            final(self).metrics_state() == old(self).metrics_state().after_reset(),
            final(self).metrics_on() == old(self).metrics_on(),
            final(self)@ == old(self)@,
            final(self).capacity_spec() == old(self).capacity_spec(),
            old(self).wf() ==> final(self).wf(),
    {
        self.metrics.reset();
    }

    fn set_metrics_enabled(&mut self, enabled: bool)
        ensures
            final(self).metrics_on() == enabled,
            final(self).metrics_state() == old(self).metrics_state(),
            final(self)@ == old(self)@,
            final(self).capacity_spec() == old(self).capacity_spec(),
            old(self).wf() ==> final(self).wf(),
    {
        self.metrics_enabled = enabled;
    }

    fn is_metrics_enabled(&self) -> (b: bool)
        ensures
            b == self.metrics_on(),
    {
        self.metrics_enabled
    }
}

impl<T: Clone> Clone for MpmcQueue<T> {
    /// A queue with the same capacity, holding clones of this queue's
    /// elements in the same order, with the metrics switch as it stands here
    /// and fresh metrics. The two queues are independent afterwards.
    fn clone(&self) -> (r: Self)
        ensures
            r.capacity_spec() == self.capacity_spec(),
            r.metrics_on() == self.metrics_on(),
            r.metrics_state() == AtomicMetrics::zeroed(),
            r@.len() == self@.len(),
            self.wf() ==> r.wf(),
            self.wf() ==> forall|i: int| 0 <= i < self@.len() ==> cloned(self@[i], #[trigger] r@[i]),
    {
        MpmcQueue {
            buffer: self.buffer.clone(),
            capacity: self.capacity,
            metrics: AtomicMetrics::default(),
            metrics_enabled: self.metrics_enabled,
        }
    }
}

} // verus!
