//! A fixed-capacity circular buffer of optional slots. The occupied slots form
//! a window that starts at `head` and wraps around the end of the slot vector;
//! every slot outside the window is empty. The buffer's view is the sequence of
//! the values in the window, from the front to the back.

use vstd::prelude::*;

verus! {

/// Whether `n` is a power of two.
pub open spec fn is_power_of_two(n: nat) -> bool
    decreases n,
{
    if n == 1 {
        true
    } else if n < 2 || n % 2 == 1 {
        false
    } else {
        is_power_of_two((n / 2) as nat)
    }
}

/// The capacity that a requested capacity is rounded up to: the power of two
/// `p` with `n <= p < 2 * n` (for `n >= 1` there is exactly one).
pub open spec fn rounds_up_to(n: nat, p: nat) -> bool {
    is_power_of_two(p) && n <= p && p < 2 * n
}

/// Of two distinct powers of two, the larger is at least twice the smaller.
pub proof fn lemma_powers_of_two_spaced(p: nat, q: nat)
    requires
        is_power_of_two(p),
        is_power_of_two(q),
        p < q,
    ensures
        2 * p <= q,
    decreases p,
{
    if p != 1 {
        lemma_powers_of_two_spaced((p / 2) as nat, (q / 2) as nat);
    }
}

/// A power of two is its own rounded-up capacity.
pub proof fn lemma_power_of_two_rounds_to_itself(p: nat)
    requires
        is_power_of_two(p),
    ensures
        rounds_up_to(p, p),
{
}

/// At most one power of two rounds up a given capacity.
pub proof fn lemma_rounding_unique(n: nat, p: nat, q: nat)
    requires
        rounds_up_to(n, p),
        rounds_up_to(n, q),
    ensures
        p == q,
{
    if p < q {
        lemma_powers_of_two_spaced(p, q);
    } else if q < p {
        lemma_powers_of_two_spaced(q, p);
    }
}

/// The smallest power of two that is at least `n`.
pub fn next_power_of_two(n: usize) -> (p: usize)
    requires
        1 <= n <= usize::MAX / 2 + 1,
    ensures
        rounds_up_to(n as nat, p as nat),
{
    let mut p: usize = 1;
    while p < n
        invariant
            1 <= p,
            p < 2 * n,
            is_power_of_two(p as nat),
            n <= usize::MAX / 2 + 1,
        decreases 2 * n - p,
    {
        assert(is_power_of_two((p * 2) as nat)) by {
            assert((p * 2) as nat / 2 == p as nat);
        }
        p = p * 2;
    }
    p
}

/// A circular buffer of `capacity` optional slots.
#[derive(Debug)]
pub struct RingBuffer<T> {
    slots: Vec<Option<T>>,
    head: usize,
    len: usize,
}

impl<T> RingBuffer<T> {
    /// The number of slots.
    pub closed spec fn capacity_spec(&self) -> nat {
        self.slots@.len()
    }

    /// The physical slot of the `i`-th value of the window.
    pub closed spec fn slot(&self, i: int) -> int {
        if self.head + i < self.slots@.len() {
            self.head + i
        } else {
            self.head + i - self.slots@.len()
        }
    }

    /// The position in the window that physical slot `j` would have.
    pub closed spec fn offset(&self, j: int) -> int {
        if j >= self.head {
            j - self.head
        } else {
            j + self.slots@.len() - self.head
        }
    }

    pub closed spec fn wf(&self) -> bool {
        &&& self.slots@.len() > 0
        &&& self.head < self.slots@.len()
        &&& self.len <= self.slots@.len()
        &&& forall|i: int| 0 <= i < self.len ==> (#[trigger] self.slots@[self.slot(i)]) is Some
        &&& forall|j: int|
            0 <= j < self.slots@.len() && self.offset(j) >= self.len ==> (
            #[trigger] self.slots@[j]) is None
    }

    pub closed spec fn view(&self) -> Seq<T> {
        Seq::new(self.len as nat, |i: int| self.slots@[self.slot(i)]->Some_0)
    }

    /// A well-formed buffer never holds more values than it has slots.
    pub proof fn lemma_len_within_capacity(&self)
        requires
            self.wf(),
        ensures
            self.view().len() <= self.capacity_spec(),
    {
    }

    /// Allocate `capacity` empty slots.
    pub fn new(capacity: usize) -> (r: Self)
        requires
            capacity > 0,
        ensures
            r.wf(),
            r.view() == Seq::<T>::empty(),
            r.capacity_spec() == capacity,
    {
        let mut slots: Vec<Option<T>> = Vec::new();
        let mut k: usize = 0;
        while k < capacity
            invariant
                k <= capacity,
                slots@.len() == k,
                forall|j: int| 0 <= j < k ==> (#[trigger] slots@[j]) is None,
            decreases capacity - k,
        {
            slots.push(None);
            k = k + 1;
        }
        let r = RingBuffer { slots, head: 0, len: 0 };
        assert(r.view() =~= Seq::<T>::empty());
        r
    }

    pub fn capacity(&self) -> (c: usize)
        requires
            self.wf(),
        ensures
            c == self.capacity_spec(),
    {
        self.slots.len()
    }

    pub fn len(&self) -> (n: usize)
        requires
            self.wf(),
        ensures
            n == self.view().len(),
    {
        self.len
    }

    proof fn lemma_slot_offset(&self)
        requires
            self.head < self.slots@.len(),
        ensures
            forall|i: int| 0 <= i < self.slots@.len() ==> 0 <= #[trigger] self.slot(i) < self.slots@.len(),
            forall|i: int| 0 <= i < self.slots@.len() ==> self.offset(#[trigger] self.slot(i)) == i,
            forall|j: int| 0 <= j < self.slots@.len() ==> 0 <= #[trigger] self.offset(j) < self.slots@.len(),
            forall|j: int| 0 <= j < self.slots@.len() ==> self.slot(#[trigger] self.offset(j)) == j,
    {
    }

    /// Put `value` behind the back of the window.
    pub fn push_back(&mut self, value: T)
        requires
            old(self).wf(),
            old(self).view().len() < old(self).capacity_spec(),
        ensures
            final(self).wf(),
            final(self).view() == old(self).view().push(value),
            final(self).capacity_spec() == old(self).capacity_spec(),
    {
        proof { self.lemma_slot_offset(); }
        let cap = self.slots.len();
        let idx = if self.len < cap - self.head {
            self.head + self.len
        } else {
            self.len - (cap - self.head)
        };
        assert(idx == self.slot(self.len as int));
        self.slots.set(idx, Some(value));
        self.len = self.len + 1;
        proof {
            self.lemma_slot_offset();
            assert forall|j: int|
                0 <= j < self.slots@.len() && self.offset(j) >= self.len implies (
                #[trigger] self.slots@[j]) is None by {
                assert(j != idx);
                assert(self.offset(j) == old(self).offset(j));
            }
            assert forall|i: int| 0 <= i < self.len implies (#[trigger] self.slots@[self.slot(i)]) is Some by {
                assert(self.slot(i) == old(self).slot(i));
            }
        }
        assert(self.view() =~= old(self).view().push(value));
    }

    /// Take the value at the back of the window.
    pub fn pop_back(&mut self) -> (v: T)
        requires
            old(self).wf(),
            old(self).view().len() > 0,
        ensures
            final(self).wf(),
            v == old(self).view().last(),
            final(self).view() == old(self).view().drop_last(),
            final(self).capacity_spec() == old(self).capacity_spec(),
    {
        proof { self.lemma_slot_offset(); }
        let cap = self.slots.len();
        let last = self.len - 1;
        let idx = if last < cap - self.head {
            self.head + last
        } else {
            last - (cap - self.head)
        };
        assert(idx == self.slot(last as int));
        let mut taken: Option<T> = None;
        self.slots.set_and_swap(idx, &mut taken);
        self.len = last;
        proof {
            self.lemma_slot_offset();
            assert forall|j: int|
                0 <= j < self.slots@.len() && self.offset(j) >= self.len implies (
                #[trigger] self.slots@[j]) is None by {
                assert(self.offset(j) == old(self).offset(j));
            }
            assert forall|i: int| 0 <= i < self.len implies (#[trigger] self.slots@[self.slot(i)]) is Some by {
                assert(self.slot(i) == old(self).slot(i));
                assert(old(self).slots@[old(self).slot(i)] is Some);
            }
        }
        assert(self.view() =~= old(self).view().drop_last());
        taken.unwrap()
    }

    /// Take the value at the front of the window.
    pub fn pop_front(&mut self) -> (v: T)
        requires
            old(self).wf(),
            old(self).view().len() > 0,
        ensures
            final(self).wf(),
            v == old(self).view()[0],
            final(self).view() == old(self).view().drop_first(),
            final(self).capacity_spec() == old(self).capacity_spec(),
    {
        proof { self.lemma_slot_offset(); }
        let idx = self.head;
        assert(idx == self.slot(0));
        let mut taken: Option<T> = None;
        self.slots.set_and_swap(idx, &mut taken);
        let cap = self.slots.len();
        self.head = if self.head == cap - 1 { 0 } else { self.head + 1 };
        self.len = self.len - 1;
        proof {
            self.lemma_slot_offset();
            assert forall|j: int|
                0 <= j < self.slots@.len() && self.offset(j) >= self.len implies (
                #[trigger] self.slots@[j]) is None by {
                if j != idx {
                    assert(old(self).offset(j) == self.offset(j) + 1);
                }
            }
            assert forall|i: int| 0 <= i < self.len implies (#[trigger] self.slots@[self.slot(i)]) is Some by {
                assert(self.slot(i) == old(self).slot(i + 1));
                assert(old(self).slots@[old(self).slot(i + 1)] is Some);
            }
        }
        assert(self.view() =~= old(self).view().drop_first()) by {
            assert forall|i: int| 0 <= i < self.len implies self.slot(i) == old(self).slot(i + 1) by {}
        }
        taken.unwrap()
    }
}

impl<T: Clone> Clone for RingBuffer<T> {
    /// A buffer with the same slots, each value cloned.
    fn clone(&self) -> (r: Self)
        ensures
            r.capacity_spec() == self.capacity_spec(),
            r.view().len() == self.view().len(),
            self.wf() ==> r.wf(),
            self.wf() ==> forall|i: int|
                0 <= i < self.view().len() ==> cloned(self.view()[i], #[trigger] r.view()[i]),
    {
        let mut slots: Vec<Option<T>> = Vec::new();
        let mut k: usize = 0;
        while k < self.slots.len()
            invariant
                k <= self.slots@.len(),
                slots@.len() == k,
                forall|j: int|
                    0 <= j < k ==> ((#[trigger] slots@[j]) is Some <==> self.slots@[j] is Some),
                forall|j: int|
                    0 <= j < k && self.slots@[j] is Some ==> cloned(
                        self.slots@[j]->Some_0,
                        (#[trigger] slots@[j])->Some_0,
                    ),
            decreases self.slots@.len() - k,
        {
            let copy = match &self.slots[k] {
                Some(v) => Some(v.clone()),
                None => None,
            };
            slots.push(copy);
            k = k + 1;
        }
        let r = RingBuffer { slots, head: self.head, len: self.len };
        assert(r.view().len() == self.view().len());
        proof {
            if self.wf() {
                assert forall|i: int| 0 <= i < r.len implies (#[trigger] r.slots@[r.slot(i)]) is Some by {
                    assert(self.slots@[self.slot(i)] is Some);
                }
                assert forall|j: int|
                    0 <= j < r.slots@.len() && r.offset(j) >= r.len implies (
                    #[trigger] r.slots@[j]) is None by {
                    assert(self.slots@[j] is None);
                }
                assert forall|i: int|
                    0 <= i < self.view().len() implies cloned(self.view()[i], #[trigger] r.view()[i]) by {
                    self.lemma_slot_offset();
                    assert(self.slots@[self.slot(i)] is Some);
                }
            }
        }
        r
    }
}

} // verus!
