//! Work-stealing deque in the manner of Chase and Lev: the owner pushes and
//! pops at the bottom (last in, first out), thieves steal from the top (first
//! in, first out). The elements live in a circular buffer whose capacity is a
//! power of two.
//!
//! The deque's view is the sequence of its elements from the top (index 0, the
//! next to be stolen) to the bottom (the last index, the next to be popped).
//! Every operation takes the deque by `&mut`: exclusive access stands in for
//! the atomic top and bottom indices, so each operation's outcome is decided by
//! the deque's contents alone.

use crate::bounded::{back, bounded_push, bounded_push_result, front, without_back, without_front};
use crate::ring::{next_power_of_two, rounds_up_to, RingBuffer};
use crate::util::CachePadded;
use crate::{Error, Result};
use vstd::prelude::*;

verus! {

/// A work-stealing deque of bounded capacity.
#[derive(Debug)]
pub struct WorkStealingDeque<T> {
    buffer: CachePadded<RingBuffer<T>>,
    capacity: usize,
}

impl<T> View for WorkStealingDeque<T> {
    type V = Seq<T>;

    closed spec fn view(&self) -> Seq<T> {
        self.buffer@.view()
    }
}

impl<T> WorkStealingDeque<T> {
    /// The deque's internal invariant: the buffer is well formed and has
    /// `capacity` slots, a power of two.
    pub closed spec fn wf(&self) -> bool {
        &&& self.buffer@.wf()
        &&& self.buffer@.capacity_spec() == self.capacity
        &&& crate::ring::is_power_of_two(self.capacity as nat)
    }

    pub closed spec fn spec_capacity(&self) -> usize {
        self.capacity
    }

    /// Create a new work-stealing deque; the capacity is rounded up to the
    /// next power of two.
    pub fn new(capacity: usize) -> (r: Self)
        requires
            0 < capacity <= usize::MAX / 2 + 1,
        ensures
            r.wf(),
            r@ == Seq::<T>::empty(),
            rounds_up_to(capacity as nat, r.capacity() as nat),
    {
        Self::with_capacity(capacity)
    }

    fn with_capacity(capacity: usize) -> (r: Self)
        requires
            0 < capacity <= usize::MAX / 2 + 1,
        ensures
            r.wf(),
            r@ == Seq::<T>::empty(),
            rounds_up_to(capacity as nat, r.capacity() as nat),
    {
        let capacity = next_power_of_two(capacity);
        WorkStealingDeque { buffer: CachePadded::new(RingBuffer::new(capacity)), capacity }
    }

    /// Push an element to the bottom of the deque (owner operation). Fails
    /// with `Error::WouldBlock`, leaving the deque as it was, when it is full.
    pub fn push(&mut self, value: T) -> (r: Result<()>)
        requires
            old(self).wf(),
        ensures
            final(self).wf(),
            final(self).capacity() == old(self).capacity(),
            final(self)@ == bounded_push(old(self)@, old(self).capacity() as nat, value),
            r == bounded_push_result(old(self)@, old(self).capacity() as nat),
    {
        let len = self.buffer.get().len();
        if len >= self.capacity {
            return Err(Error::WouldBlock);
        }
        self.buffer.get_mut().push_back(value);
        Ok(())
    }

    /// Pop the element at the bottom of the deque (owner operation): the one
    /// pushed last. `None` when the deque is empty.
    pub fn pop(&mut self) -> (r: Option<T>)
        requires
            old(self).wf(),
        ensures
            final(self).wf(),
            final(self).capacity() == old(self).capacity(),
            r == back(old(self)@),
            final(self)@ == without_back(old(self)@),
    {
        if self.buffer.get().len() == 0 {
            return None;
        }
        Some(self.buffer.get_mut().pop_back())
    }

    /// Steal the element at the top of the deque (thief operation): the oldest
    /// one. `None` when the deque is empty.
    pub fn steal(&mut self) -> (r: Option<T>)
        requires
            old(self).wf(),
        ensures
            final(self).wf(),
            final(self).capacity() == old(self).capacity(),
            r == front(old(self)@),
            final(self)@ == without_front(old(self)@),
    {
        if self.buffer.get().len() == 0 {
            return None;
        }
        Some(self.buffer.get_mut().pop_front())
    }

    /// A well-formed deque never holds more elements than its capacity.
    pub proof fn lemma_len_within_capacity(&self)
        requires
            self.wf(),
        ensures
            self@.len() <= self.capacity(),
    {
        self.buffer@.lemma_len_within_capacity();
    }

    /// The number of elements in the deque.
    pub fn len(&self) -> (n: usize)
        requires
            self.wf(),
        ensures
            n == self@.len(),
            n <= self.capacity(),
    {
        proof {
            self.buffer@.lemma_len_within_capacity();
        }
        self.buffer.get().len()
    }

    /// Whether the deque holds no element.
    pub fn is_empty(&self) -> (b: bool)
        requires
            self.wf(),
        ensures
            b == (self@.len() == 0),
    {
        self.buffer.get().len() == 0
    }

    /// The maximum number of elements the deque can hold.
    #[verifier::when_used_as_spec(spec_capacity)]
    pub fn capacity(&self) -> (c: usize)
        ensures
            c == self.spec_capacity(),
    {
        self.capacity
    }

    /// Same as [`WorkStealingDeque::push`].
    pub fn try_push(&mut self, value: T) -> (r: Result<()>)
        requires
            old(self).wf(),
        ensures
            final(self).wf(),
            final(self).capacity() == old(self).capacity(),
            final(self)@ == bounded_push(old(self)@, old(self).capacity() as nat, value),
            r == bounded_push_result(old(self)@, old(self).capacity() as nat),
    {
        self.push(value)
    }

    /// Same as [`WorkStealingDeque::pop`].
    pub fn try_pop(&mut self) -> (r: Option<T>)
        requires
            old(self).wf(),
        ensures
            final(self).wf(),
            final(self).capacity() == old(self).capacity(),
            r == back(old(self)@),
            final(self)@ == without_back(old(self)@),
    {
        self.pop()
    }

    /// Same as [`WorkStealingDeque::steal`].
    pub fn try_steal(&mut self) -> (r: Option<T>)
        requires
            old(self).wf(),
        ensures
            final(self).wf(),
            final(self).capacity() == old(self).capacity(),
            r == front(old(self)@),
            final(self)@ == without_front(old(self)@),
    {
        self.steal()
    }
}

impl<T> Clone for WorkStealingDeque<T> {
    /// A new, empty deque of the same capacity: the elements are not copied.
    fn clone(&self) -> (r: Self)
        ensures
            self.wf() ==> r.wf() && r@ == Seq::<T>::empty() && r.capacity() == self.capacity(),
    {
        let capacity = if self.capacity > 0 {
            self.capacity
        } else {
            1
        };
        WorkStealingDeque { buffer: CachePadded::new(RingBuffer::new(capacity)), capacity }
    }
}

} // verus!
