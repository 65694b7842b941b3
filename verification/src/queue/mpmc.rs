//! Multi-producer, multi-consumer queues: a bounded ring-buffer queue whose
//! capacity is a power of two, and an unbounded queue.
//!
//! A queue's view is the sequence of its elements from the oldest (index 0,
//! the next to pop) to the newest. Operations take the queue by `&mut`;
//! threads that share a queue hold it behind a lock, so each operation's
//! outcome is decided by the queue's contents alone.

use crate::bounded::{bounded_push, bounded_push_result, fitting, front, reverse_vec, without_front};
use crate::ring::{next_power_of_two, rounds_up_to, RingBuffer};
use crate::util::CachePadded;
use crate::{Error, Result};
use std::collections::VecDeque;
use vstd::prelude::*;

verus! {

/// A bounded multi-producer, multi-consumer queue.
#[derive(Debug)]
pub struct MpmcQueue<T> {
    buffer: CachePadded<RingBuffer<T>>,
    capacity: usize,
}

impl<T> View for MpmcQueue<T> {
    type V = Seq<T>;

    closed spec fn view(&self) -> Seq<T> {
        self.buffer@.view()
    }
}

impl<T> MpmcQueue<T> {
    /// The queue's internal invariant: the buffer is well formed and has
    /// `capacity` slots, a power of two.
    pub closed spec fn wf(&self) -> bool {
        &&& self.buffer@.wf()
        &&& self.buffer@.capacity_spec() == self.capacity
        &&& crate::ring::is_power_of_two(self.capacity as nat)
    }

    pub closed spec fn spec_capacity(&self) -> usize {
        self.capacity
    }

    /// Create a new bounded queue; the capacity is rounded up to the next
    /// power of two.
    pub fn new(capacity: usize) -> (r: Self)
        requires
            0 < capacity <= usize::MAX / 2 + 1,
        ensures
            r.wf(),
            r@ == Seq::<T>::empty(),
            rounds_up_to(capacity as nat, r.capacity() as nat),
    {
        Self::with_capacity(capacity)
    }

    fn with_capacity(capacity: usize) -> (r: Self)
        requires
            0 < capacity <= usize::MAX / 2 + 1,
        ensures
            r.wf(),
            r@ == Seq::<T>::empty(),
            rounds_up_to(capacity as nat, r.capacity() as nat),
    {
        let capacity = next_power_of_two(capacity);
        MpmcQueue { buffer: CachePadded::new(RingBuffer::new(capacity)), capacity }
    }

    /// Push an element at the back of the queue. Fails with
    /// `Error::WouldBlock`, leaving the queue as it was, when it is full.
    pub fn push(&mut self, value: T) -> (r: Result<()>)
        requires
            old(self).wf(),
        ensures
            final(self).wf(),
            final(self).capacity() == old(self).capacity(),
            final(self)@ == bounded_push(old(self)@, old(self).capacity() as nat, value),
            r == bounded_push_result(old(self)@, old(self).capacity() as nat),
    {
        if self.buffer.get().len() >= self.capacity {
            return Err(Error::WouldBlock);
        }
        self.buffer.get_mut().push_back(value);
        Ok(())
    }

    /// Pop the element at the front of the queue: the oldest one. `None` when
    /// the queue is empty.
    pub fn pop(&mut self) -> (r: Option<T>)
        requires
            old(self).wf(),
        ensures
            final(self).wf(),
            final(self).capacity() == old(self).capacity(),
            r == front(old(self)@),
            final(self)@ == without_front(old(self)@),
    {
        if self.buffer.get().len() == 0 {
            return None;
        }
        Some(self.buffer.get_mut().pop_front())
    }

    /// A well-formed queue never holds more elements than its capacity.
    pub proof fn lemma_len_within_capacity(&self)
        requires
            self.wf(),
        ensures
            self@.len() <= self.capacity(),
    {
        self.buffer@.lemma_len_within_capacity();
    }

    /// The number of elements in the queue.
    pub fn len(&self) -> (n: usize)
        requires
            self.wf(),
        ensures
            n == self@.len(),
            n <= self.capacity(),
    {
        proof {
            self.buffer@.lemma_len_within_capacity();
        }
        self.buffer.get().len()
    }

    /// Whether the queue holds no element.
    pub fn is_empty(&self) -> (b: bool)
        requires
            self.wf(),
        ensures
            b == (self@.len() == 0),
    {
        self.len() == 0
    }

    /// The maximum number of elements the queue can hold.
    #[verifier::when_used_as_spec(spec_capacity)]
    pub fn capacity(&self) -> (c: usize)
        ensures
            c == self.spec_capacity(),
    {
        self.capacity
    }

    /// Same as [`MpmcQueue::push`].
    pub fn try_push(&mut self, value: T) -> (r: Result<()>)
        requires
            old(self).wf(),
        ensures
            final(self).wf(),
            final(self).capacity() == old(self).capacity(),
            final(self)@ == bounded_push(old(self)@, old(self).capacity() as nat, value),
            r == bounded_push_result(old(self)@, old(self).capacity() as nat),
    {
        self.push(value)
    }

    /// Same as [`MpmcQueue::pop`].
    pub fn try_pop(&mut self) -> (r: Option<T>)
        requires
            old(self).wf(),
        ensures
            final(self).wf(),
            final(self).capacity() == old(self).capacity(),
            r == front(old(self)@),
            final(self)@ == without_front(old(self)@),
    {
        self.pop()
    }

    /// Push the elements of `values` in order until the queue is full, and
    /// return how many were pushed; the ones that did not fit are dropped.
    pub fn push_batch(&mut self, values: Vec<T>) -> (n: usize)
        requires
            old(self).wf(),
        ensures
            final(self).wf(),
            final(self).capacity() == old(self).capacity(),
            n == fitting(old(self)@, old(self).capacity() as nat, values@.len()),
            final(self)@ == old(self)@ + values@.take(n as int),
    {
        let ghost vals = values@;
        let mut rest = reverse_vec(values);
        let mut pushed: usize = 0;
        proof {
            self.buffer@.lemma_len_within_capacity();
            assert(vals.skip(0) =~= vals);
            assert(vals.take(0) =~= Seq::<T>::empty());
            assert(old(self)@ + vals.take(0) =~= old(self)@);
        }
        while rest.len() > 0
            invariant_except_break
                self.wf(),
                self.capacity == old(self).capacity,
                rest@.reverse() == vals.skip(pushed as int),
                rest@.len() + pushed == vals.len(),
                self@ == old(self)@ + vals.take(pushed as int),
                old(self)@.len() + pushed <= self.capacity,
            ensures
                self.wf(),
                self.capacity == old(self).capacity,
                pushed == fitting(old(self)@, old(self).capacity() as nat, vals.len()),
                self@ == old(self)@ + vals.take(pushed as int),
            decreases rest.len(),
        {
            let ghost before = rest@;
            let value = rest.pop().unwrap();
            proof {
                assert(before.reverse().len() == before.len());
                assert(before.reverse()[0] == before[before.len() - 1]);
                assert(vals.skip(pushed as int)[0] == vals[pushed as int]);
                assert(rest@.reverse() =~= vals.skip(pushed + 1)) by {
                    assert forall|i: int| 0 <= i < rest@.len() implies rest@.reverse()[i]
                        == vals.skip(pushed + 1)[i] by {
                        assert(before.reverse()[i + 1] == before[before.len() - 2 - i]);
                    }
                }
            }
            match self.push(value) {
                Ok(()) => {
                    proof {
                        assert(vals.take(pushed + 1) =~= vals.take(pushed as int).push(value));
                    }
                    pushed = pushed + 1;
                },
                Err(_) => {
                    break;
                },
            }
        }
        pushed
    }

    /// Pop up to `max_values` elements from the front, oldest first.
    pub fn pop_batch(&mut self, max_values: usize) -> (r: Vec<T>)
        requires
            old(self).wf(),
        ensures
            final(self).wf(),
            final(self).capacity() == old(self).capacity(),
            r@.len() == if max_values <= old(self)@.len() {
                max_values as nat
            } else {
                old(self)@.len()
            },
            r@ == old(self)@.take(r@.len() as int),
            final(self)@ == old(self)@.skip(r@.len() as int),
    {
        let mut values: Vec<T> = Vec::new();
        let mut i: usize = 0;
        while i < max_values
            invariant_except_break
                self.wf(),
                self.capacity == old(self).capacity,
                i <= max_values,
                i == values@.len(),
                i <= old(self)@.len(),
                values@ == old(self)@.take(i as int),
                self@ == old(self)@.skip(i as int),
            ensures
                self.wf(),
                self.capacity == old(self).capacity,
                values@.len() == if max_values <= old(self)@.len() {
                    max_values as nat
                } else {
                    old(self)@.len()
                },
                values@ == old(self)@.take(values@.len() as int),
                self@ == old(self)@.skip(values@.len() as int),
            decreases max_values - i,
        {
            match self.pop() {
                Some(value) => {
                    proof {
                        assert(old(self)@.take(i + 1) =~= old(self)@.take(i as int).push(value));
                        assert(self@ =~= old(self)@.skip(i + 1));
                    }
                    values.push(value);
                    i = i + 1;
                },
                None => {
                    break;
                },
            }
        }
        values
    }
}

impl<T> Clone for MpmcQueue<T> {
    /// A new, empty queue of the same capacity: the elements are not copied.
    fn clone(&self) -> (r: Self)
        ensures
            self.wf() ==> r.wf() && r@ == Seq::<T>::empty() && r.capacity() == self.capacity(),
    {
        let capacity = if self.capacity > 0 {
            self.capacity
        } else {
            1
        };
        MpmcQueue { buffer: CachePadded::new(RingBuffer::new(capacity)), capacity }
    }
}

/// An unbounded multi-producer, multi-consumer queue.
#[derive(Debug)]
pub struct UnboundedMpmcQueue<T> {
    items: VecDeque<T>,
}

impl<T> View for UnboundedMpmcQueue<T> {
    type V = Seq<T>;

    closed spec fn view(&self) -> Seq<T> {
        self.items@
    }
}

impl<T> UnboundedMpmcQueue<T> {
    /// Create a new, empty unbounded queue.
    pub fn new() -> (r: Self)
        ensures
            r@ == Seq::<T>::empty(),
    {
        UnboundedMpmcQueue { items: VecDeque::new() }
    }

    /// Push an element at the back of the queue; this always succeeds.
    pub fn push(&mut self, value: T) -> (r: Result<()>)
        ensures
            r == Ok::<(), Error>(()),
            final(self)@ == old(self)@.push(value),
    {
        self.items.push_back(value);
        Ok(())
    }

    /// Pop the element at the front of the queue: the oldest one. `None` when
    /// the queue is empty.
    pub fn pop(&mut self) -> (r: Option<T>)
        ensures
            r == front(old(self)@),
            final(self)@ == without_front(old(self)@),
    {
        self.items.pop_front()
    }

    /// The number of elements in the queue.
    pub fn len(&self) -> (n: usize)
        ensures
            n == self@.len(),
    {
        self.items.len()
    }

    /// Whether the queue holds no element.
    pub fn is_empty(&self) -> (b: bool)
        ensures
            b == (self@.len() == 0),
    {
        self.len() == 0
    }

    /// Same as [`UnboundedMpmcQueue::push`].
    pub fn try_push(&mut self, value: T) -> (r: Result<()>)
        ensures
            r == Ok::<(), Error>(()),
            final(self)@ == old(self)@.push(value),
    {
        self.push(value)
    }

    /// Same as [`UnboundedMpmcQueue::pop`].
    pub fn try_pop(&mut self) -> (r: Option<T>)
        ensures
            r == front(old(self)@),
            final(self)@ == without_front(old(self)@),
    {
        self.pop()
    }
}

impl<T> Clone for UnboundedMpmcQueue<T> {
    /// A new, empty queue: the elements are not copied.
    fn clone(&self) -> (r: Self)
        ensures
            r@ == Seq::<T>::empty(),
    {
        Self::new()
    }
}

} // verus!

/// The bounded queue under the name that sets it apart from the unbounded one.
pub use MpmcQueue as BoundedMpmcQueue;
