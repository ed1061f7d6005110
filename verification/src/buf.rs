//! Buffers handed out by the pool.

use vstd::prelude::*;

use crate::allocator::Allocator;
use crate::block::{lock_asked, measures, Block};
use crate::model::{class_for_return, pool_after_dealloc, tls_after_dealloc, NO_CLASS};
use crate::pool::ZeroPool;
use crate::routing::NUM_CLASSES;
use crate::text::{buffer_text, describe_buffer};
use crate::tls::TlsState;

verus! {

/// An allocated byte buffer that remembers the size class it came from.
///
/// The buffer gives access to its bytes as a slice, so a caller cannot resize it by accident.
/// [`Buf::release`] returns it to the pool; [`Buf::into_inner`] keeps the vector instead.
#[derive(Debug)]
pub struct Buf {
    block: Block,
    class_idx: u8,
}

impl View for Buf {
    type V = Seq<u8>;

    /// The readable bytes.
    closed spec fn view(&self) -> Seq<u8> {
        self.block@
    }
}

impl Buf {
    /// The capacity of the buffer.
    pub closed spec fn cap(&self) -> nat {
        self.block.cap()
    }

    /// The class the buffer was allocated from.
    pub closed spec fn hint(&self) -> u8 {
        self.class_idx
    }

    /// The bytes fit in the capacity, and the class is one of the pool's or none.
    pub open spec fn wf(&self) -> bool {
        &&& self@.len() <= self.cap() <= usize::MAX
        &&& self.hint() < NUM_CLASSES || self.hint() == NO_CLASS
    }

    /// The vector behind the buffer.
    pub closed spec fn inner(&self) -> Vec<u8> {
        self.block.inner()
    }

    /// Wraps a block that was allocated from the given class.
    pub fn new(block: Block, class_idx: u8) -> (buf: Buf)
        ensures
            buf@ == block@,
            buf.inner() == block.inner(),
            buf.cap() == block.cap(),
            buf.hint() == class_idx,
    {
        Buf { block, class_idx }
    }

    /// Number of bytes.
    pub fn len(&self) -> (n: usize)
        ensures
            n == self@.len(),
    {
        self.block.len()
    }

    /// Capacity of the underlying allocation.
    pub fn capacity(&self) -> (n: usize)
        ensures
            n == self.cap(),
    {
        self.block.capacity()
    }

    /// Whether the buffer has no bytes.
    pub fn is_empty(&self) -> (b: bool)
        ensures
            b == (self@.len() == 0),
    {
        self.block.is_empty()
    }

    /// Consumes the buffer and returns the underlying vector, which the pool does not get back.
    #[must_use]
    pub fn into_inner(self) -> (v: Vec<u8>)
        ensures
            v == self.inner(),
            v@ == self@,
    {
        self.block.into_vec()
    }

    /// The same as [`Buf::into_inner`].
    #[must_use]
    pub fn into_vec(self) -> (v: Vec<u8>)
        ensures
            v == self.inner(),
            v@ == self@,
    {
        self.into_inner()
    }

    /// Appends bytes, growing the buffer, and returns how many were written: all of them.
    pub fn write(&mut self, data: &[u8]) -> (n: usize)
        requires
            old(self).wf(),
            old(self)@.len() + data@.len() <= isize::MAX,
        ensures
            n == data@.len(),
            final(self).wf(),
            final(self)@ == old(self)@ + data@,
            final(self).hint() == old(self).hint(),
            old(self)@.len() + data@.len() <= old(self).cap() ==> final(self).cap() == old(
                self,
            ).cap(),
            old(self)@.len() + data@.len() > old(self).cap() ==> measures(
                final(self).inner(),
                final(self).cap(),
            ),
    {
        self.block.append(data);
        data.len()
    }

    /// Appends all the bytes, growing the buffer.
    pub fn write_all(&mut self, data: &[u8])
        requires
            old(self).wf(),
            old(self)@.len() + data@.len() <= isize::MAX,
        ensures
            final(self).wf(),
            final(self)@ == old(self)@ + data@,
            final(self).hint() == old(self).hint(),
            old(self)@.len() + data@.len() <= old(self).cap() ==> final(self).cap() == old(
                self,
            ).cap(),
            old(self)@.len() + data@.len() > old(self).cap() ==> measures(
                final(self).inner(),
                final(self).cap(),
            ),
    {
        self.block.append(data);
    }

    /// Describes the buffer by its length and its capacity.
    pub fn debug_text(&self) -> (text: String)
        ensures
            text@ == buffer_text("Buf"@, self@.len(), self.cap()),
    {
        describe_buffer("Buf", self.len(), self.capacity())
    }

    /// Returns the buffer to the pool.
    pub fn release<A: Allocator>(self, pool: &mut ZeroPool<A>, tls: &mut TlsState)
        requires
            self.wf(),
            old(pool).wf(),
            old(tls).wf(),
        ensures
            final(pool).wf(),
            final(tls).wf(),
            final(pool).state.allocator == old(pool).state.allocator,
            final(pool)@ == pool_after_dealloc(old(pool)@, old(tls)@, self.cap(), self.hint()),
            final(tls)@ == tls_after_dealloc(old(pool)@, old(tls)@, self.cap(), self.hint()),
            old(pool)@.pinned_memory && class_for_return(
                old(pool)@,
                self.cap(),
                self.hint(),
            ) is Some ==> lock_asked(self.cap()),
    {
        let Buf { block, class_idx } = self;
        pool.dealloc(tls, block, class_idx);
    }
}

impl core::ops::Deref for Buf {
    type Target = [u8];

    fn deref(&self) -> (s: &[u8])
        ensures
            s@ == self@,
    {
        self.block.as_slice()
    }
}

impl core::ops::DerefMut for Buf {
    fn deref_mut(&mut self) -> (s: &mut [u8])
        ensures
            s@ == old(self)@,
            final(self)@ == final(s)@,
            final(self).cap() == old(self).cap(),
            final(self).hint() == old(self).hint(),
    {
        self.block.as_mut_slice()
    }
}

impl AsRef<[u8]> for Buf {
    fn as_ref(&self) -> (s: &[u8])
        ensures
            s@ == self@,
    {
        self.block.as_slice()
    }
}

impl AsMut<[u8]> for Buf {
    fn as_mut(&mut self) -> (s: &mut [u8])
        ensures
            s@ == old(self)@,
            final(self)@ == final(s)@,
            final(self).cap() == old(self).cap(),
            final(self).hint() == old(self).hint(),
    {
        self.block.as_mut_slice()
    }
}

impl From<Buf> for Vec<u8> {
    fn from(buf: Buf) -> (v: Vec<u8>) {
        buf.into_inner()
    }
}

impl vstd::std_specs::convert::FromSpecImpl<Buf> for Vec<u8> {
    open spec fn obeys_from_spec() -> bool {
        true
    }

    open spec fn from_spec(buf: Buf) -> Vec<u8> {
        buf.inner()
    }
}

/// Converting a buffer to a vector keeps its bytes.
pub proof fn law_conversion_keeps_the_bytes(buf: Buf)
    ensures
        buf.inner()@ == buf@,
{
    buf.block.lemma_inner();
}

/// A vector that was wrapped as a buffer comes back from [`Buf::into_inner`] as it was: the very
/// vector, its bytes, and the capacity that was measured for it.
pub proof fn law_vector_comes_back(bytes: Vec<u8>, block: Block, buf: Buf)
    requires
        block.inner() == bytes,
        measures(bytes, block.cap()),
        buf.inner() == block.inner(),
        buf.cap() == block.cap(),
    ensures
        buf.inner() == bytes,
        buf@ == bytes@,
        measures(buf.inner(), buf.cap()),
{
    law_conversion_keeps_the_bytes(buf);
}

/// An allocated byte buffer that is to be overwritten completely before it is read.
///
/// It does not dereference to its bytes. Write every byte, then convert it to a [`Buf`] with
/// [`BufUninit::write_from_slice`] or [`BufUninit::assume_init`].
#[derive(Debug)]
pub struct BufUninit {
    block: Block,
    class_idx: u8,
}

impl View for BufUninit {
    type V = Seq<u8>;

    /// The bytes as they stand.
    closed spec fn view(&self) -> Seq<u8> {
        self.block@
    }
}

impl BufUninit {
    /// The capacity of the buffer.
    pub closed spec fn cap(&self) -> nat {
        self.block.cap()
    }

    /// The class the buffer was allocated from.
    pub closed spec fn hint(&self) -> u8 {
        self.class_idx
    }

    /// The bytes fit in the capacity, and the class is one of the pool's or none.
    pub open spec fn wf(&self) -> bool {
        &&& self@.len() <= self.cap() <= usize::MAX
        &&& self.hint() < NUM_CLASSES || self.hint() == NO_CLASS
    }

    /// The vector behind the buffer.
    pub closed spec fn inner(&self) -> Vec<u8> {
        self.block.inner()
    }

    /// Wraps a block that was allocated from the given class.
    pub fn new(block: Block, class_idx: u8) -> (buf: BufUninit)
        ensures
            buf@ == block@,
            buf.inner() == block.inner(),
            buf.cap() == block.cap(),
            buf.hint() == class_idx,
    {
        BufUninit { block, class_idx }
    }

    /// Number of bytes that must be written before conversion.
    pub fn len(&self) -> (n: usize)
        ensures
            n == self@.len(),
    {
        self.block.len()
    }

    /// Capacity of the underlying allocation.
    pub fn capacity(&self) -> (n: usize)
        ensures
            n == self.cap(),
    {
        self.block.capacity()
    }

    /// Whether there is nothing to write.
    pub fn is_empty(&self) -> (b: bool)
        ensures
            b == (self@.len() == 0),
    {
        self.block.is_empty()
    }

    /// The bytes to be written.
    pub fn as_uninit_mut(&mut self) -> (s: &mut [u8])
        ensures
            s@ == old(self)@,
            final(self)@ == final(s)@,
            final(self).cap() == old(self).cap(),
            final(self).hint() == old(self).hint(),
    {
        self.block.as_mut_slice()
    }

    /// Writes the whole buffer from a slice of the same length.
    #[must_use]
    pub fn write_from_slice(self, data: &[u8]) -> (buf: Buf)
        requires
            self.wf(),
            data@.len() == self@.len(),
        ensures
            buf.wf(),
            buf@ == data@,
            buf.cap() == self.cap(),
            buf.hint() == self.hint(),
    {
        let mut this = self;
        this.block.clear();
        this.block.append(data);
        assert(this.block@ =~= data@);
        this.assume_init()
    }

    /// Converts the buffer once the caller has written every byte.
    #[must_use]
    pub fn assume_init(self) -> (buf: Buf)
        ensures
            buf@ == self@,
            buf.inner() == self.inner(),
            buf.cap() == self.cap(),
            buf.hint() == self.hint(),
    {
        Buf::new(self.block, self.class_idx)
    }

    /// Describes the buffer by its length and its capacity.
    pub fn debug_text(&self) -> (text: String)
        ensures
            text@ == buffer_text("BufUninit"@, self@.len(), self.cap()),
    {
        describe_buffer("BufUninit", self.len(), self.capacity())
    }

    /// Returns the buffer to the pool unread.
    pub fn release<A: Allocator>(self, pool: &mut ZeroPool<A>, tls: &mut TlsState)
        requires
            self.wf(),
            old(pool).wf(),
            old(tls).wf(),
        ensures
            final(pool).wf(),
            final(tls).wf(),
            final(pool).state.allocator == old(pool).state.allocator,
            final(pool)@ == pool_after_dealloc(old(pool)@, old(tls)@, self.cap(), self.hint()),
            final(tls)@ == tls_after_dealloc(old(pool)@, old(tls)@, self.cap(), self.hint()),
            old(pool)@.pinned_memory && class_for_return(
                old(pool)@,
                self.cap(),
                self.hint(),
            ) is Some ==> lock_asked(self.cap()),
    {
        let BufUninit { block, class_idx } = self;
        pool.dealloc(tls, block, class_idx);
    }
}

} // verus!
