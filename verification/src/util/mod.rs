//! Common utilities: cache-line arithmetic and a cache-line padded cell.

pub mod padded_atomics;

use vstd::prelude::*;

verus! {

/// Cache line size for alignment purposes.
pub const CACHE_LINE_SIZE: usize = 64;

/// The smallest multiple of the cache line size that is at least `size`.
pub open spec fn spec_align_to_cache_line(size: nat) -> nat {
    (((size + 63) / 64) * 64) as nat
}

/// Align a value to cache line boundaries.
pub fn align_to_cache_line(size: usize) -> (r: usize)
    requires
        size + CACHE_LINE_SIZE - 1 <= usize::MAX,
    ensures
        r == spec_align_to_cache_line(size as nat),
{
    let y: usize = size + (CACHE_LINE_SIZE - 1);
    let r: usize = y & !(CACHE_LINE_SIZE - 1);
    assert(y & !63usize == y - y % 64) by (bit_vector);
    r
}


/// A 512-bit vector type of the platform. Its alignment is 64 bytes, which is
/// what a zero-length array of it lends to the struct that holds the array.
#[verifier::external_type_specification]
#[verifier::external_body]
pub struct ExAlignmentUnit(core::arch::x86_64::__m512);

/// A value padded and aligned to the cache line size, so that two such values
/// never share a cache line.
///
/// The alignment comes from a zero-length array of the x86_64 type `__m512`,
/// so this type, and the containers that hold one, build on x86_64 targets
/// only. Its `Debug` output is the derived one: it shows the struct, with the
/// value in the `value` field and an empty `alignment` array.
#[derive(Clone, Copy, Debug)]
pub struct CachePadded<T> {
    value: T,
    alignment: [core::arch::x86_64::__m512; 0],
}

impl<T> View for CachePadded<T> {
    type V = T;

    closed spec fn view(&self) -> T {
        self.value
    }
}

impl<T> CachePadded<T> {
    /// Create a new cache-padded value.
    pub fn new(value: T) -> (r: Self)
        ensures
            r@ == value,
    {
        CachePadded { value, alignment: [] }
    }

    /// Get a reference to the inner value.
    pub fn get(&self) -> (r: &T)
        ensures
            *r == self@,
    {
        &self.value
    }

    /// Get a mutable reference to the inner value.
    pub fn get_mut(&mut self) -> (r: &mut T)
        ensures
            *r == old(self)@,
            final(self)@ == *final(r),
    {
        &mut self.value
    }

    /// Get the inner value.
    pub fn into_inner(self) -> (r: T)
        ensures
            r == self@,
    {
        self.value
    }

    /// Get a mutable reference to the inner value (for indexing).
    pub fn inner_mut(&mut self) -> (r: &mut T)
        ensures
            *r == old(self)@,
            final(self)@ == *final(r),
    {
        &mut self.value
    }

    /// Get a reference to the inner value (for indexing).
    pub fn inner(&self) -> (r: &T)
        ensures
            *r == self@,
    {
        &self.value
    }
}

} // verus!
