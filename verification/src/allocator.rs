//! Pluggable buffer creation.

use vstd::prelude::*;

use crate::block::zeros;

verus! {

/// Controls how the pool creates raw byte buffers.
///
/// `allocate(capacity)` should return a vector with at least `capacity` bytes, the first
/// `capacity` of them zero. The pool does not rely on it: a vector that offers less room is
/// grown, and every byte that becomes readable is zeroed first.
pub trait Allocator: Send + Sync + 'static {
    /// Allocates a zero-initialized buffer with at least `capacity` bytes.
    fn allocate(&self, capacity: usize) -> (bytes: Vec<u8>)
        requires
            capacity <= isize::MAX,
    ;
}

/// Standard heap allocation.
#[derive(Debug, Clone, Copy)]
pub struct HeapAllocator;

impl Default for HeapAllocator {
    fn default() -> (allocator: HeapAllocator)
        ensures
            allocator == HeapAllocator,
    {
        HeapAllocator
    }
}

impl Allocator for HeapAllocator {
    fn allocate(&self, capacity: usize) -> (bytes: Vec<u8>)
        ensures
            bytes@ == zeros(capacity as nat),
    {
        let bytes = vec![0u8; capacity];
        assert(bytes@ =~= zeros(capacity as nat));
        bytes
    }
}

} // verus!
