//! Shared storage: one bounded queue of blocks per size class.

use crossbeam_queue::ArrayQueue;
use vstd::prelude::*;

use crate::block::{capacities, zeros, Block};
use crate::queue::{
    queue_items, queue_limit, queue_new, queue_pop, queue_push, valid_limit,
};
use crate::routing::{
    class_boundary, class_for_capacity, class_for_size, lemma_boundaries, lemma_class_for_capacity,
    lemma_class_for_size, route_capacity, route_size, CLASS_SIZES, NUM_CLASSES,
};

verus! {

/// Every block may be stored by a class with the given boundary.
pub open spec fn all_storable(blocks: Seq<Block>, boundary: int) -> bool {
    forall|k: int| 0 <= k < blocks.len() ==> (#[trigger] blocks[k]).storable(boundary)
}

/// A single size class with a bounded queue of recycled blocks.
pub struct SizeClass {
    queue: ArrayQueue<Block>,
    class_size: usize,
    count: usize,
}

impl SizeClass {
    /// The stored blocks, oldest first.
    pub closed spec fn blocks(&self) -> Seq<Block> {
        queue_items(self.queue)
    }

    /// The most blocks the class stores.
    pub closed spec fn limit(&self) -> nat {
        queue_limit(self.queue)
    }

    /// The boundary: every stored block offers at least this many bytes.
    pub closed spec fn boundary(&self) -> int {
        self.class_size as int
    }

    /// The running count is the number of stored blocks.
    pub closed spec fn counted(&self) -> bool {
        self.count == self.blocks().len()
    }

    /// The class never stores more than its limit, and every stored block is empty and offers the
    /// boundary.
    pub open spec fn wf(&self) -> bool {
        &&& valid_limit(self.limit() as int)
        &&& self.counted()
        &&& self.blocks().len() <= self.limit()
        &&& all_storable(self.blocks(), self.boundary())
    }

    /// Creates a class with the given boundary that stores up to `capacity` blocks.
    pub fn new(class_size: usize, capacity: usize) -> (class: SizeClass)
        requires
            valid_limit(capacity as int),
        ensures
            class.wf(),
            class.boundary() == class_size,
            class.limit() == capacity,
            class.blocks() == Seq::<Block>::empty(),
    {
        SizeClass { queue: queue_new(capacity), class_size, count: 0 }
    }

    /// Allocates a fresh block for this class with `requested_len` readable bytes.
    pub fn allocate(&self, requested_len: usize) -> (block: Block)
        requires
            requested_len <= self.boundary() <= isize::MAX,
        ensures
            block.wf(),
            block@ == zeros(requested_len as nat),
            block.cap() >= self.boundary(),
    {
        let mut block = Block::with_room(Vec::with_capacity(self.class_size), self.class_size);
        SizeClass::resize(&mut block, requested_len);
        block
    }

    /// Gives a recycled block the requested length. No byte of its former contents stays
    /// readable.
    pub fn resize(buf: &mut Block, requested_len: usize)
        requires
            requested_len <= old(buf).cap(),
        ensures
            final(buf)@ == zeros(requested_len as nat),
            final(buf).cap() == old(buf).cap(),
    {
        buf.reset_to(requested_len);
    }

    /// Takes out the oldest block.
    pub fn pop(&mut self) -> (result: Option<Block>)
        requires
            old(self).wf(),
        ensures
            final(self).wf(),
            final(self).boundary() == old(self).boundary(),
            final(self).limit() == old(self).limit(),
            match result {
                Some(block) => {
                    &&& old(self).blocks().len() > 0
                    &&& block == old(self).blocks()[0]
                    &&& block.storable(old(self).boundary())
                    &&& final(self).blocks() == old(self).blocks().skip(1)
                },
                None => {
                    &&& old(self).blocks().len() == 0
                    &&& final(self).blocks() == old(self).blocks()
                },
            },
    {
        let result = queue_pop(&mut self.queue);
        if result.is_some() {
            self.count = self.count - 1;
        }
        result
    }

    /// Stores a block as the newest one, or hands it back when the class is full.
    pub fn push(&mut self, buf: Block) -> (result: Result<(), Block>)
        requires
            old(self).wf(),
            buf.storable(old(self).boundary()),
        ensures
            final(self).wf(),
            final(self).boundary() == old(self).boundary(),
            final(self).limit() == old(self).limit(),
            match result {
                Ok(_) => {
                    &&& old(self).blocks().len() < old(self).limit()
                    &&& final(self).blocks() == old(self).blocks().push(buf)
                },
                Err(back) => {
                    &&& old(self).blocks().len() == old(self).limit()
                    &&& back == buf
                    &&& final(self).blocks() == old(self).blocks()
                },
            },
    {
        let result = queue_push(&mut self.queue, buf);
        if result.is_ok() {
            self.count = self.count + 1;
        }
        result
    }

    /// The boundary of the class.
    pub fn class_size(&self) -> (n: usize)
        ensures
            n == self.boundary(),
    {
        self.class_size
    }

    /// Number of stored blocks.
    pub fn len(&self) -> (n: usize)
        requires
            self.wf(),
        ensures
            n == self.blocks().len(),
    {
        self.count
    }

    /// Whether no block is stored.
    pub fn is_empty(&self) -> (b: bool)
        requires
            self.wf(),
        ensures
            b == (self.blocks().len() == 0),
    {
        self.count == 0
    }

    /// Drops every stored block.
    pub fn clear(&mut self)
        requires
            old(self).wf(),
        ensures
            final(self).wf(),
            final(self).boundary() == old(self).boundary(),
            final(self).limit() == old(self).limit(),
            final(self).blocks() == Seq::<Block>::empty(),
    {
        let mut emptied: bool = false;
        while !emptied
            invariant
                self.wf(),
                self.boundary() == old(self).boundary(),
                self.limit() == old(self).limit(),
                emptied ==> self.blocks().len() == 0,
            decreases self.blocks().len(), !emptied as nat,
        {
            emptied = self.pop().is_none();
        }
        self.count = 0;
    }
}

/// The blocks of the first `n` classes, counted together.
pub open spec fn total_blocks(classes: Seq<SizeClass>, n: int) -> nat
    decreases n,
{
    if n <= 0 {
        0
    } else {
        total_blocks(classes, n - 1) + classes[n - 1].blocks().len()
    }
}

/// One [`SizeClass`] per boundary.
pub struct ClassTable {
    /// The classes, smallest boundary first.
    pub classes: Vec<SizeClass>,
}

impl ClassTable {
    /// The most blocks that each class stores.
    pub open spec fn limit(&self) -> nat {
        self.classes@[0].limit()
    }

    /// Every class is well-formed, has its boundary, and stores up to the same number of blocks.
    pub open spec fn wf(&self) -> bool {
        &&& self.classes@.len() == NUM_CLASSES
        &&& forall|i: int|
            0 <= i < NUM_CLASSES ==> {
                &&& (#[trigger] self.classes@[i]).wf()
                &&& self.classes@[i].boundary() == class_boundary(i)
                &&& self.classes@[i].limit() == self.limit()
            }
    }

    /// The capacities that every class stores, oldest first.
    pub open spec fn stored(&self) -> Seq<Seq<nat>> {
        self.classes@.map_values(|c: SizeClass| capacities(c.blocks()))
    }

    /// Builds a table whose classes are empty and store up to `max_buffers_per_class` blocks.
    pub fn new(max_buffers_per_class: usize) -> (table: ClassTable)
        requires
            valid_limit(max_buffers_per_class as int),
        ensures
            table.wf(),
            table.limit() == max_buffers_per_class,
            forall|i: int|
                0 <= i < NUM_CLASSES ==> #[trigger] table.stored()[i] == Seq::<nat>::empty(),
            table.stored().len() == NUM_CLASSES,
    {
        let mut classes: Vec<SizeClass> = Vec::new();
        let mut i: usize = 0;
        proof {
            lemma_boundaries();
        }
        while i < NUM_CLASSES
            invariant
                i <= NUM_CLASSES,
                classes@.len() == i,
                valid_limit(max_buffers_per_class as int),
                forall|k: int|
                    0 <= k < NUM_CLASSES ==> #[trigger] class_boundary(k) == CLASS_SIZES[k],
                forall|k: int|
                    0 <= k < i ==> {
                        &&& (#[trigger] classes@[k]).wf()
                        &&& classes@[k].boundary() == class_boundary(k)
                        &&& classes@[k].limit() == max_buffers_per_class
                        &&& classes@[k].blocks() == Seq::<Block>::empty()
                    },
            decreases NUM_CLASSES - i,
        {
            classes.push(SizeClass::new(CLASS_SIZES[i], max_buffers_per_class));
            assert(class_boundary(i as int) == CLASS_SIZES[i as int]);
            i = i + 1;
        }
        let table = ClassTable { classes };
        assert forall|k: int| 0 <= k < NUM_CLASSES implies #[trigger] table.stored()[k]
            == Seq::<nat>::empty() by {
            assert(table.classes@[k].blocks() == Seq::<Block>::empty());
            assert(capacities(Seq::<Block>::empty()) =~= Seq::<nat>::empty());
        }
        table
    }

    /// Routes a requested size to the smallest class that can satisfy it.
    pub fn route(&self, size: usize) -> (result: Option<(usize, &SizeClass)>)
        requires
            self.classes@.len() == NUM_CLASSES,
        ensures
            match result {
                Some((i, class)) => {
                    &&& class_for_size(size as int) == Some(i as int)
                    &&& *class == self.classes@[i as int]
                },
                None => class_for_size(size as int) is None,
            },
    {
        proof {
            lemma_class_for_size(size as int);
        }
        match route_size(size) {
            Some(idx) => Some((idx, &self.classes[idx])),
            None => None,
        }
    }

    /// Routes a capacity to the largest class it can serve.
    pub fn route_capacity(&self, capacity: usize) -> (result: Option<(usize, &SizeClass)>)
        requires
            self.classes@.len() == NUM_CLASSES,
        ensures
            match result {
                Some((i, class)) => {
                    &&& class_for_capacity(capacity as int) == Some(i as int)
                    &&& *class == self.classes@[i as int]
                },
                None => class_for_capacity(capacity as int) is None,
            },
    {
        proof {
            lemma_class_for_capacity(capacity as int);
        }
        match route_capacity(capacity) {
            Some(idx) => Some((idx, &self.classes[idx])),
            None => None,
        }
    }

    /// The boundary of a class.
    pub fn boundary(class_idx: usize) -> (size: usize)
        requires
            class_idx < NUM_CLASSES,
        ensures
            size == class_boundary(class_idx as int),
    {
        proof {
            lemma_boundaries();
        }
        CLASS_SIZES[class_idx]
    }

    /// Allocates a block that bypasses all classes.
    pub fn oversize(size: usize) -> (block: Block)
        requires
            size <= isize::MAX,
        ensures
            block.wf(),
            block@ == zeros(size as nat),
    {
        let mut block = Block::with_room(Vec::with_capacity(size), size);
        block.reset_to(size);
        block
    }

    /// The classes, smallest boundary first.
    pub fn classes(&self) -> (classes: &Vec<SizeClass>)
        ensures
            *classes == self.classes,
    {
        &self.classes
    }

    /// Number of stored blocks across all classes.
    pub fn total_buffered(&self) -> (n: usize)
        requires
            self.wf(),
        ensures
            n == total_blocks(self.classes@, NUM_CLASSES as int),
    {
        let mut i: usize = 0;
        let mut total: usize = 0;
        while i < NUM_CLASSES
            invariant
                i <= NUM_CLASSES,
                self.wf(),
                total == total_blocks(self.classes@, i as int),
                total <= i * self.limit(),
            decreases NUM_CLASSES - i,
        {
            let ghost limit = self.limit();
            assert(valid_limit(self.classes@[0].limit() as int));
            assert(total + limit <= usize::MAX) by (nonlinear_arith)
                requires
                    total <= i * limit,
                    i < 8,
                    limit * 64 <= isize::MAX,
            ;
            assert((i + 1) * limit == i * limit + limit) by (nonlinear_arith);
            total = total + self.classes[i].len();
            i = i + 1;
        }
        total
    }

    /// Whether no class stores a block.
    pub fn all_empty(&self) -> (b: bool)
        requires
            self.wf(),
        ensures
            b == (forall|i: int|
                0 <= i < NUM_CLASSES ==> (#[trigger] self.classes@[i]).blocks().len() == 0),
    {
        let mut i: usize = 0;
        while i < NUM_CLASSES
            invariant
                i <= NUM_CLASSES,
                self.wf(),
                forall|k: int| 0 <= k < i ==> (#[trigger] self.classes@[k]).blocks().len() == 0,
            decreases NUM_CLASSES - i,
        {
            if !self.classes[i].is_empty() {
                return false;
            }
            i = i + 1;
        }
        true
    }

    /// Drops every stored block of every class.
    pub fn clear_all(&mut self)
        requires
            old(self).wf(),
        ensures
            final(self).wf(),
            final(self).limit() == old(self).limit(),
            forall|i: int|
                0 <= i < NUM_CLASSES ==> (#[trigger] final(self).classes@[i]).blocks() == Seq::<
                    Block,
                >::empty(),
    {
        let mut i: usize = 0;
        while i < NUM_CLASSES
            invariant
                i <= NUM_CLASSES,
                self.wf(),
                self.limit() == old(self).limit(),
                forall|k: int|
                    0 <= k < i ==> (#[trigger] self.classes@[k]).blocks() == Seq::<Block>::empty(),
            decreases NUM_CLASSES - i,
        {
            self.classes[i].clear();
            i = i + 1;
        }
    }
}

impl core::ops::Index<usize> for ClassTable {
    type Output = SizeClass;

    fn index(&self, idx: usize) -> (class: &SizeClass)
        ensures
            *class == self.classes@[idx as int],
    {
        &self.classes[idx]
    }
}

impl vstd::std_specs::core::IndexSpecImpl<usize> for ClassTable {
    open spec fn index_req(&self, index: &usize) -> bool {
        *index < self.classes@.len()
    }
}

} // verus!
