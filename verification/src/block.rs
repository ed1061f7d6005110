//! Recyclable allocations.

use vstd::prelude::*;

verus! {

/// `n` zero bytes.
pub open spec fn zeros(n: nat) -> Seq<u8> {
    Seq::new(n, |i: int| 0u8)
}

/// The capacity of every block in a sequence, in order.
pub open spec fn capacities(blocks: Seq<Block>) -> Seq<nat> {
    blocks.map_values(|b: Block| b.cap())
}

/// A heap allocation together with the capacity that was measured for it.
///
/// The capacity is measured when the allocation enters the library and again after every
/// operation that may have moved it, so it is the capacity the bytes have now.
#[derive(Debug)]
pub struct Block {
    bytes: Vec<u8>,
    cap: usize,
}

impl View for Block {
    type V = Seq<u8>;

    /// The readable bytes.
    closed spec fn view(&self) -> Seq<u8> {
        self.bytes@
    }
}

/// Calls [`Vec::capacity`]. The contract claims what std documents of every vector: the
/// capacity is no smaller than the length. How much larger it is depends on the allocator and
/// is left open.
#[verifier::external_body]
fn vec_capacity(bytes: &Vec<u8>) -> (cap: usize)
    ensures
        cap >= bytes@.len(),
{
    bytes.capacity()
}

/// Whether `cap` is a possible answer of [`Vec::capacity`] for this vector. Only a call shows that
/// an answer is possible.
pub closed spec fn measures(bytes: Vec<u8>, cap: nat) -> bool {
    &&& cap <= usize::MAX
    &&& call_ensures(vec_capacity, (&bytes,), cap as usize)
}

/// Whether a vector that is to offer at least `room` bytes comes to offer `cap` of them: its
/// measured capacity if that suffices, otherwise what was measured once it had been filled up
/// with zeros to `room` bytes.
pub open spec fn offers_room(bytes: Vec<u8>, room: int, cap: nat) -> bool {
    exists|c: nat| #[trigger]
        measures(bytes, c) && if c >= room {
            cap == c
        } else {
            exists|grown: Vec<u8>| #[trigger]
                measures(grown, cap) && grown@ == bytes@ + zeros((room - bytes@.len()) as nat)
        }
}

/// Whether some answer is known to be possible for a block of the given capacity when it is put
/// before the operating system to be kept in physical memory. Only a request shows that one is.
pub open spec fn lock_asked(cap: nat) -> bool {
    exists|block: Block| #[trigger] block.asked() && block.cap() == cap
}

/// Calls [`region::lock`] on the first `len` bytes of the allocation and keeps the pages locked
/// when that succeeds, for as long as they are mapped. The contract claims that an empty range is
/// never locked; for any other range the operating system decides, and nothing is claimed.
#[verifier::external_body]
fn lock_region(bytes: &Vec<u8>, len: usize) -> (locked: bool)
    ensures
        len == 0 ==> !locked,
{
    match region::lock(bytes.as_ptr(), len) {
        Ok(guard) => {
            std::mem::forget(guard);
            true
        },
        Err(_) => false,
    }
}

/// Whether `locked` is a possible answer of [`region::lock`] to a request to lock the first `len`
/// bytes of the vector's allocation. Only a call shows that an answer is possible.
pub closed spec fn lock_answer(bytes: Vec<u8>, len: usize, locked: bool) -> bool {
    call_ensures(lock_region, (&bytes, len), locked)
}

/// An answer to a request to lock a range is one to a call with exactly that many bytes, and a
/// range without bytes is never locked.
proof fn law_lock_is_asked_for_the_whole_range(bytes: Vec<u8>, len: usize, locked: bool)
    requires
        lock_answer(bytes, len, locked),
    ensures
        call_ensures(lock_region, (&bytes, len), locked),
        len == 0 ==> !locked,
{
}

/// A request to keep a block in physical memory covers its allocation from the first byte to the
/// capacity, however few of its bytes are readable.
pub proof fn law_lock_covers_the_capacity(block: Block, locked: bool)
    requires
        block.answered(locked),
    ensures
        block.cap() > 0 ==> lock_answer(block.inner(), block.cap() as usize, locked),
        block.cap() == 0 ==> !locked,
{
}

/// A block of which a lock was asked for has an answer for its whole capacity.
pub proof fn law_asked_blocks_have_an_answer(cap: nat)
    requires
        lock_asked(cap),
        cap > 0,
    ensures
        exists|block: Block, locked: bool|
            block.cap() == cap && #[trigger] lock_answer(
                block.inner(),
                block.cap() as usize,
                locked,
            ),
{
    let block = choose|block: Block| #[trigger] block.asked() && block.cap() == cap;
    if block.answered(true) {
        assert(lock_answer(block.inner(), block.cap() as usize, true));
    } else {
        assert(lock_answer(block.inner(), block.cap() as usize, false));
    }
}

/// A measured capacity is what the vector itself answered, and covers its bytes.
proof fn law_capacity_is_the_answer_of_the_vector(bytes: Vec<u8>, cap: nat)
    requires
        measures(bytes, cap),
    ensures
        call_ensures(vec_capacity, (&bytes,), cap as usize),
        bytes@.len() <= cap <= usize::MAX,
{
}

/// A vector that has the room offers its measured capacity; one that has not is grown by zeros and
/// measured again. Either way it offers at least the room and all of its bytes.
pub proof fn law_room_is_offered(bytes: Vec<u8>, room: int, cap: nat)
    requires
        offers_room(bytes, room, cap),
    ensures
        cap >= room,
        cap >= bytes@.len(),
        exists|c: nat| #[trigger]
            measures(bytes, c) && {
                &&& c >= room ==> cap == c
                &&& c < room ==> exists|grown: Vec<u8>| #[trigger]
                    measures(grown, cap) && grown@.len() == room && grown@.take(
                        bytes@.len() as int,
                    ) == bytes@
            },
{
    let c = choose|c: nat| #[trigger]
        measures(bytes, c) && if c >= room {
            cap == c
        } else {
            exists|grown: Vec<u8>| #[trigger]
                measures(grown, cap) && grown@ == bytes@ + zeros((room - bytes@.len()) as nat)
        };
    if c < room {
        let grown = choose|grown: Vec<u8>| #[trigger]
            measures(grown, cap) && grown@ == bytes@ + zeros((room - bytes@.len()) as nat);
        assert(grown@.take(bytes@.len() as int) =~= bytes@);
        assert(measures(grown, cap) && grown@.len() == room && grown@.take(bytes@.len() as int)
            == bytes@);
    }
}

/// Zeroed bytes are as many as asked for, and all zero.
pub proof fn law_zeros(n: nat)
    ensures
        zeros(n).len() == n,
        forall|k: int| 0 <= k < n ==> #[trigger] zeros(n)[k] == 0,
{
}

impl Block {
    /// The measured capacity.
    pub closed spec fn cap(&self) -> nat {
        self.cap as nat
    }

    /// The bytes fit in the measured capacity.
    pub open spec fn wf(&self) -> bool {
        self@.len() <= self.cap() <= usize::MAX
    }

    /// Whether the block may be stored for reuse by a class with the given boundary: it holds no
    /// readable byte and offers at least the boundary.
    pub open spec fn storable(&self, boundary: int) -> bool {
        &&& self.wf()
        &&& self@.len() == 0
        &&& self.cap() >= boundary
    }

    /// Takes over a vector and measures its capacity.
    pub fn new(bytes: Vec<u8>) -> (block: Block)
        ensures
            block.wf(),
            block@ == bytes@,
            block.inner() == bytes,
            measures(bytes, block.cap()),
    {
        let cap: usize = vec_capacity(&bytes);
        Block { bytes, cap }
    }

    /// Turns a vector into an empty block that offers at least `room` bytes.
    ///
    /// A vector whose capacity is smaller is grown first.
    pub fn with_room(bytes: Vec<u8>, room: usize) -> (block: Block)
        requires
            room <= isize::MAX,
        ensures
            block.storable(room as int),
            block.cap() >= bytes@.len(),
            offers_room(bytes, room as int, block.cap()),
    {
        let ghost answer = bytes;
        let mut bytes = bytes;
        let mut cap: usize = vec_capacity(&bytes);
        assert(measures(answer, cap as nat));
        if cap < room {
            bytes.resize(room, 0);
            cap = vec_capacity(&bytes);
            assert(bytes@ =~= answer@ + zeros((room - answer@.len()) as nat));
            assert(measures(bytes, cap as nat));
        }
        bytes.clear();
        Block { bytes, cap }
    }

    /// Number of readable bytes.
    pub fn len(&self) -> (n: usize)
        ensures
            n == self@.len(),
    {
        self.bytes.len()
    }

    /// Whether no byte is readable.
    pub fn is_empty(&self) -> (b: bool)
        ensures
            b == (self@.len() == 0),
    {
        self.bytes.len() == 0
    }

    /// The measured capacity.
    pub fn capacity(&self) -> (n: usize)
        ensures
            n == self.cap(),
    {
        self.cap
    }

    /// Makes exactly `len` bytes readable, all of them zero.
    ///
    /// Whatever the block held before is overwritten. The capacity suffices, so the allocation
    /// stays where it is.
    pub fn reset_to(&mut self, len: usize)
        requires
            len <= old(self).cap(),
        ensures
            final(self)@ == zeros(len as nat),
            final(self).cap() == old(self).cap(),
    {
        self.bytes.clear();
        self.bytes.resize(len, 0);
        assert(self.bytes@ =~= zeros(len as nat));
    }

    /// Makes no byte readable; the capacity stays.
    pub fn clear(&mut self)
        ensures
            final(self)@ == Seq::<u8>::empty(),
            final(self).cap() == old(self).cap(),
    {
        self.bytes.clear();
    }

    /// Appends bytes.
    ///
    /// As long as they fit in the capacity the allocation stays as it is; otherwise it grows and
    /// is measured again.
    pub fn append(&mut self, data: &[u8])
        requires
            old(self).wf(),
            old(self)@.len() + data@.len() <= old(self).cap() || old(self)@.len() + data@.len()
                <= isize::MAX,
        ensures
            final(self).wf(),
            final(self)@ == old(self)@ + data@,
            old(self)@.len() + data@.len() <= old(self).cap() ==> final(self).cap() == old(
                self,
            ).cap(),
            old(self)@.len() + data@.len() > old(self).cap() ==> measures(
                final(self).inner(),
                final(self).cap(),
            ),
    {
        let fits: bool = data.len() <= self.cap - self.bytes.len();
        self.bytes.extend_from_slice(data);
        assert(self.bytes@ =~= old(self).bytes@ + data@);
        if !fits {
            self.cap = vec_capacity(&self.bytes);
        }
    }

    /// The readable bytes.
    pub fn as_slice(&self) -> (s: &[u8])
        ensures
            s@ == self@,
    {
        self.bytes.as_slice()
    }

    /// The readable bytes, to be changed in place.
    pub fn as_mut_slice(&mut self) -> (s: &mut [u8])
        ensures
            s@ == old(self)@,
            final(self)@ == final(s)@,
            final(self).cap() == old(self).cap(),
    {
        self.bytes.as_mut_slice()
    }

    /// The vector behind the block.
    pub closed spec fn inner(&self) -> Vec<u8> {
        self.bytes
    }

    /// The vector behind the block holds its bytes.
    pub proof fn lemma_inner(&self)
        ensures
            self.inner()@ == self@,
    {
    }

    /// Hands out the vector behind the block.
    pub fn into_vec(self) -> (v: Vec<u8>)
        ensures
            v == self.inner(),
            v@ == self@,
    {
        self.bytes
    }

    /// Asks the operating system to keep the whole allocation in physical memory.
    ///
    /// Best effort: a refusal is reported and otherwise ignored. The block itself is unchanged.
    pub fn pin(&self) -> (locked: bool)
        ensures
            self.cap() == 0 ==> !locked,
            self.cap() > 0 ==> lock_answer(self.inner(), self.cap() as usize, locked),
            self.answered(locked),
    {
        if self.cap == 0 {
            return false;
        }
        lock_region(&self.bytes, self.cap)
    }

    /// Whether some answer is known to be possible when the block is put before the operating
    /// system to be kept in physical memory. Only a request shows that one is.
    pub open spec fn asked(&self) -> bool {
        self.answered(true) || self.answered(false)
    }

    /// Whether `locked` is a possible answer to a request to keep the block in physical memory:
    /// nothing is asked for an empty allocation; for any other it is a possible answer of
    /// [`region::lock`] for the whole allocation, from its first byte to its capacity.
    pub open spec fn answered(&self, locked: bool) -> bool {
        if self.cap() == 0 {
            !locked
        } else {
            lock_answer(self.inner(), self.cap() as usize, locked)
        }
    }
}

/// Taking capacities commutes with the operations on sequences of blocks.
pub proof fn lemma_capacities(blocks: Seq<Block>, b: Block)
    ensures
        capacities(blocks).len() == blocks.len(),
        capacities(blocks.push(b)) == capacities(blocks).push(b.cap()),
        blocks.len() > 0 ==> capacities(blocks.drop_last()) == capacities(blocks).drop_last(),
        blocks.len() > 0 ==> capacities(blocks).last() == blocks.last().cap(),
{
    assert(capacities(blocks.push(b)) =~= capacities(blocks).push(b.cap()));
    if blocks.len() > 0 {
        assert(capacities(blocks.drop_last()) =~= capacities(blocks).drop_last());
    }
}

} // verus!
