//! Pooled buffers without a class of their own.

use vstd::prelude::*;

use crate::allocator::Allocator;
use crate::block::{lock_asked, measures, Block};
use crate::model::{class_for_put, pool_after_put, tls_after_put};
use crate::pool::ZeroPool;
use crate::text::{buffer_text, describe_buffer};
use crate::tls::TlsState;

verus! {

/// A pooled buffer that finds its class by its capacity when it is returned.
///
/// The buffer gives access to its bytes as a slice, so a caller cannot resize it by accident.
/// [`PooledBuffer::release`] returns it to the pool; [`PooledBuffer::into_inner`] keeps the
/// vector instead.
#[derive(Debug)]
pub struct PooledBuffer {
    block: Block,
}

impl View for PooledBuffer {
    type V = Seq<u8>;

    /// The readable bytes.
    closed spec fn view(&self) -> Seq<u8> {
        self.block@
    }
}

impl PooledBuffer {
    /// The capacity of the buffer.
    pub closed spec fn cap(&self) -> nat {
        self.block.cap()
    }

    /// The bytes fit in the capacity.
    pub open spec fn wf(&self) -> bool {
        self@.len() <= self.cap() <= usize::MAX
    }

    /// The vector behind the buffer.
    pub closed spec fn inner(&self) -> Vec<u8> {
        self.block.inner()
    }

    /// Wraps a block.
    pub fn new(block: Block) -> (buffer: PooledBuffer)
        ensures
            buffer@ == block@,
            buffer.inner() == block.inner(),
            buffer.cap() == block.cap(),
    {
        PooledBuffer { block }
    }

    /// Number of bytes.
    pub fn len(&self) -> (n: usize)
        ensures
            n == self@.len(),
    {
        self.block.len()
    }

    /// Capacity of the underlying allocation.
    pub fn capacity(&self) -> (n: usize)
        ensures
            n == self.cap(),
    {
        self.block.capacity()
    }

    /// Whether the buffer has no bytes.
    pub fn is_empty(&self) -> (b: bool)
        ensures
            b == (self@.len() == 0),
    {
        self.block.is_empty()
    }

    /// Consumes the buffer and returns the underlying vector, which the pool does not get back.
    #[must_use]
    pub fn into_inner(self) -> (v: Vec<u8>)
        ensures
            v == self.inner(),
            v@ == self@,
    {
        self.block.into_vec()
    }

    /// The same as [`PooledBuffer::into_inner`].
    #[must_use]
    pub fn into_vec(self) -> (v: Vec<u8>)
        ensures
            v == self.inner(),
            v@ == self@,
    {
        self.into_inner()
    }

    /// Appends bytes, growing the buffer, and returns how many were written: all of them.
    pub fn write(&mut self, data: &[u8]) -> (n: usize)
        requires
            old(self).wf(),
            old(self)@.len() + data@.len() <= isize::MAX,
        ensures
            n == data@.len(),
            final(self).wf(),
            final(self)@ == old(self)@ + data@,
            old(self)@.len() + data@.len() <= old(self).cap() ==> final(self).cap() == old(
                self,
            ).cap(),
            old(self)@.len() + data@.len() > old(self).cap() ==> measures(
                final(self).inner(),
                final(self).cap(),
            ),
    {
        self.block.append(data);
        data.len()
    }

    /// Appends all the bytes, growing the buffer.
    pub fn write_all(&mut self, data: &[u8])
        requires
            old(self).wf(),
            old(self)@.len() + data@.len() <= isize::MAX,
        ensures
            final(self).wf(),
            final(self)@ == old(self)@ + data@,
            old(self)@.len() + data@.len() <= old(self).cap() ==> final(self).cap() == old(
                self,
            ).cap(),
            old(self)@.len() + data@.len() > old(self).cap() ==> measures(
                final(self).inner(),
                final(self).cap(),
            ),
    {
        self.block.append(data);
    }

    /// Describes the buffer by its length and its capacity.
    pub fn debug_text(&self) -> (text: String)
        ensures
            text@ == buffer_text("PooledBuffer"@, self@.len(), self.cap()),
    {
        describe_buffer("PooledBuffer", self.len(), self.capacity())
    }

    /// Returns the buffer to the pool.
    pub fn release<A: Allocator>(self, pool: &mut ZeroPool<A>, tls: &mut TlsState)
        requires
            self.wf(),
            old(pool).wf(),
            old(tls).wf(),
        ensures
            final(pool).wf(),
            final(tls).wf(),
            final(pool).state.allocator == old(pool).state.allocator,
            final(pool)@ == pool_after_put(old(pool)@, old(tls)@, self.cap()),
            final(tls)@ == tls_after_put(old(pool)@, old(tls)@, self.cap()),
            old(pool)@.pinned_memory && class_for_put(old(pool)@, self.cap()) is Some
                ==> lock_asked(self.cap()),
    {
        pool.put(tls, self.block);
    }
}

impl core::ops::Deref for PooledBuffer {
    type Target = [u8];

    fn deref(&self) -> (s: &[u8])
        ensures
            s@ == self@,
    {
        self.block.as_slice()
    }
}

impl core::ops::DerefMut for PooledBuffer {
    fn deref_mut(&mut self) -> (s: &mut [u8])
        ensures
            s@ == old(self)@,
            final(self)@ == final(s)@,
            final(self).cap() == old(self).cap(),
    {
        self.block.as_mut_slice()
    }
}

impl AsRef<[u8]> for PooledBuffer {
    fn as_ref(&self) -> (s: &[u8])
        ensures
            s@ == self@,
    {
        self.block.as_slice()
    }
}

impl AsMut<[u8]> for PooledBuffer {
    fn as_mut(&mut self) -> (s: &mut [u8])
        ensures
            s@ == old(self)@,
            final(self)@ == final(s)@,
            final(self).cap() == old(self).cap(),
    {
        self.block.as_mut_slice()
    }
}

impl From<PooledBuffer> for Vec<u8> {
    fn from(buffer: PooledBuffer) -> (v: Vec<u8>) {
        buffer.into_inner()
    }
}

impl vstd::std_specs::convert::FromSpecImpl<PooledBuffer> for Vec<u8> {
    open spec fn obeys_from_spec() -> bool {
        true
    }

    open spec fn from_spec(buffer: PooledBuffer) -> Vec<u8> {
        buffer.inner()
    }
}

/// Converting a buffer to a vector keeps its bytes.
pub proof fn law_conversion_keeps_the_bytes(buffer: PooledBuffer)
    ensures
        buffer.inner()@ == buffer@,
{
    buffer.block.lemma_inner();
}

/// A vector that was wrapped as a buffer comes back from [`PooledBuffer::into_inner`] as it was:
/// the very vector, its bytes, and the capacity that was measured for it.
pub proof fn law_vector_comes_back(bytes: Vec<u8>, block: Block, buffer: PooledBuffer)
    requires
        block.inner() == bytes,
        measures(bytes, block.cap()),
        buffer.inner() == block.inner(),
        buffer.cap() == block.cap(),
    ensures
        buffer.inner() == bytes,
        buffer@ == bytes@,
        measures(buffer.inner(), buffer.cap()),
{
    law_conversion_keeps_the_bytes(buffer);
}

} // verus!
