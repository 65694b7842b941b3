//! Atomic operations on cache-padded atomics. What a load returns, and whether
//! an exchange succeeds, depends on the other threads that share the atomic, so
//! the contracts state only what holds of every outcome.

use crate::util::CachePadded;
use std::sync::atomic::{AtomicBool, AtomicIsize, AtomicUsize, Ordering};
use vstd::prelude::*;

verus! {

/// Calls `AtomicUsize::compare_exchange`, which panics when `failure` is
/// `Release` or `AcqRel`; those orderings are left out. Its documentation
/// guarantees that an `Ok` carries the previous value, which then equals
/// `current`, and that, unlike `compare_exchange_weak`, it fails only when the
/// comparison fails, so an `Err` carries a previous value that differs from
/// `current`. Which of the two comes depends on the other threads, and is not
/// claimed.
#[verifier::external_body]
fn usize_compare_exchange(
    atomic: &AtomicUsize,
    current: usize,
    new: usize,
    success: Ordering,
    failure: Ordering,
) -> (r: core::result::Result<usize, usize>)
    requires
        failure != Ordering::Release,
        failure != Ordering::AcqRel,
    ensures
        r matches Ok(prev) ==> prev == current,
        r matches Err(prev) ==> prev != current,
{
    atomic.compare_exchange(current, new, success, failure)
}

/// Calls `AtomicIsize::compare_exchange` (which panics on a `failure`
/// ordering of `Release` or `AcqRel`, left out); an `Ok` carries the previous value,
/// which equals `current`, and an `Err` (no spurious failure) a previous value
/// that differs from it.
#[verifier::external_body]
fn isize_compare_exchange(
    atomic: &AtomicIsize,
    current: isize,
    new: isize,
    success: Ordering,
    failure: Ordering,
) -> (r: core::result::Result<isize, isize>)
    requires
        failure != Ordering::Release,
        failure != Ordering::AcqRel,
    ensures
        r matches Ok(prev) ==> prev == current,
        r matches Err(prev) ==> prev != current,
{
    atomic.compare_exchange(current, new, success, failure)
}

/// Calls `AtomicBool::compare_exchange` (which panics on a `failure`
/// ordering of `Release` or `AcqRel`, left out); an `Ok` carries the previous value,
/// which equals `current`, and an `Err` (no spurious failure) a previous value
/// that differs from it.
#[verifier::external_body]
fn bool_compare_exchange(
    atomic: &AtomicBool,
    current: bool,
    new: bool,
    success: Ordering,
    failure: Ordering,
) -> (r: core::result::Result<bool, bool>)
    requires
        failure != Ordering::Release,
        failure != Ordering::AcqRel,
    ensures
        r matches Ok(prev) ==> prev == current,
        r matches Err(prev) ==> prev != current,
{
    atomic.compare_exchange(current, new, success, failure)
}

impl CachePadded<AtomicUsize> {
    /// Store a value into the atomic integer (an `Acquire` or `AcqRel` store
    /// would panic).
    pub fn store(&self, val: usize, order: Ordering)
        requires
            order != Ordering::Acquire,
            order != Ordering::AcqRel,
    {
        self.get().store(val, order);
    }

    /// Load a value from the atomic integer. The value is whatever some thread
    /// stored last, so nothing is claimed of it (a `Release` or `AcqRel` load
    /// would panic).
    pub fn load(&self, order: Ordering) -> usize
        requires
            order != Ordering::Release,
            order != Ordering::AcqRel,
    {
        self.get().load(order)
    }

    /// Compare and exchange operation on the atomic integer: an `Ok` carries
    /// the previous value, which equals `current`; an `Err` carries the
    /// previous value, which differs from `current`.
    pub fn compare_exchange(
        &self,
        current: usize,
        new: usize,
        success: Ordering,
        failure: Ordering,
    ) -> (r: core::result::Result<usize, usize>)
        requires
            failure != Ordering::Release,
            failure != Ordering::AcqRel,
        ensures
            r matches Ok(prev) ==> prev == current,
            r matches Err(prev) ==> prev != current,
    {
        usize_compare_exchange(self.get(), current, new, success, failure)
    }
}

impl CachePadded<AtomicIsize> {
    /// Store a value into the atomic integer (an `Acquire` or `AcqRel` store
    /// would panic).
    pub fn store(&self, val: isize, order: Ordering)
        requires
            order != Ordering::Acquire,
            order != Ordering::AcqRel,
    {
        self.get().store(val, order);
    }

    /// Load a value from the atomic integer. The value is whatever some thread
    /// stored last, so nothing is claimed of it (a `Release` or `AcqRel` load
    /// would panic).
    pub fn load(&self, order: Ordering) -> isize
        requires
            order != Ordering::Release,
            order != Ordering::AcqRel,
    {
        self.get().load(order)
    }

    /// Compare and exchange operation on the atomic integer: an `Ok` carries
    /// the previous value, which equals `current`; an `Err` carries the
    /// previous value, which differs from `current`.
    pub fn compare_exchange(
        &self,
        current: isize,
        new: isize,
        success: Ordering,
        failure: Ordering,
    ) -> (r: core::result::Result<isize, isize>)
        requires
            failure != Ordering::Release,
            failure != Ordering::AcqRel,
        ensures
            r matches Ok(prev) ==> prev == current,
            r matches Err(prev) ==> prev != current,
    {
        isize_compare_exchange(self.get(), current, new, success, failure)
    }
}

impl CachePadded<AtomicBool> {
    /// Store a value into the atomic boolean (an `Acquire` or `AcqRel` store
    /// would panic).
    pub fn store(&self, val: bool, order: Ordering)
        requires
            order != Ordering::Acquire,
            order != Ordering::AcqRel,
    {
        self.get().store(val, order);
    }

    /// Load a value from the atomic boolean. The value is whatever some thread
    /// stored last, so nothing is claimed of it (a `Release` or `AcqRel` load
    /// would panic).
    pub fn load(&self, order: Ordering) -> bool
        requires
            order != Ordering::Release,
            order != Ordering::AcqRel,
    {
        self.get().load(order)
    }

    /// Compare and exchange operation on the atomic boolean: an `Ok` carries
    /// the previous value, which equals `current`; an `Err` carries the
    /// previous value, which differs from `current`.
    pub fn compare_exchange(
        &self,
        current: bool,
        new: bool,
        success: Ordering,
        failure: Ordering,
    ) -> (r: core::result::Result<bool, bool>)
        requires
            failure != Ordering::Release,
            failure != Ordering::AcqRel,
        ensures
            r matches Ok(prev) ==> prev == current,
            r matches Err(prev) ==> prev != current,
    {
        bool_compare_exchange(self.get(), current, new, success, failure)
    }
}

} // verus!
