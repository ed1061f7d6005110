//! The pool.

use vstd::prelude::*;

use crate::allocator::{Allocator, HeapAllocator};
use crate::block::{capacities, lemma_capacities, lock_asked, offers_room, zeros, Block};
use crate::buf::{Buf, BufUninit};
use crate::buffer::PooledBuffer;
use crate::config::{
    batch_size_for, default_batch_size, default_max_buffers_per_class, default_tls_cache_size,
    max_buffers_for, tls_cache_size_for, DEFAULT_MIN_BUFFER_SIZE,
};
use crate::metrics::{bump, next_count, snapshot, Counters, PoolStats};
use crate::model::{
    adopted, class_for_put, class_for_return, hint_for_size, least_capacity,
    lemma_class_for_return, lemma_put_is_dealloc, lemma_spilled_capacities, made_room,
    pool_after_alloc, pool_after_dealloc, pool_after_put, recycled_capacity, refill_count, served,
    stored_in, tls_after_alloc, tls_after_dealloc, tls_after_put, total_stored, PoolView, Served,
    NO_CLASS,
};
use crate::queue::valid_limit;
use crate::routing::{
    class_boundary, class_for_size, lemma_boundaries, lemma_class_for_size, route_capacity,
    route_size, NUM_CLASSES,
};
use crate::size_class::{all_storable, total_blocks, ClassTable, SizeClass};
use crate::tls::{min, no_blocks, spilled, TlsState, TlsView};

verus! {

/// Identity, class table and configuration of a pool.
pub struct State<A: Allocator> {
    /// Identity of the pool.
    pub id: u64,
    /// Shared storage per class.
    pub table: ClassTable,
    /// Blocks a thread caches per class.
    pub tls_cache_size: usize,
    /// Smaller allocations are discarded on return.
    pub min_buffer_size: usize,
    /// Whether allocations are locked in physical memory.
    pub pinned_memory: bool,
    /// Blocks moved at once between a thread and the shared pool.
    pub batch_size: usize,
    /// Whether the counters run.
    pub track_stats: bool,
    /// The counters.
    pub counters: Counters,
    /// Creates the memory for fresh buffers.
    pub allocator: A,
}

/// A byte allocator with size classes, shared storage and per-thread caches.
pub struct ZeroPool<A: Allocator = HeapAllocator> {
    /// The state behind the pool.
    pub state: State<A>,
}

impl<A: Allocator> View for ZeroPool<A> {
    type V = PoolView;

    open spec fn view(&self) -> PoolView {
        PoolView {
            id: self.state.id,
            max_buffers: self.state.table.limit(),
            tls_cache_size: self.state.tls_cache_size as nat,
            min_buffer_size: self.state.min_buffer_size as nat,
            pinned_memory: self.state.pinned_memory,
            batch_size: self.state.batch_size as nat,
            track_stats: self.state.track_stats,
            counters: self.state.counters,
            shared: self.state.table.stored(),
        }
    }
}

/// The capacity is that of the allocator's answer to a request for `capacity` bytes, as it was
/// measured; an answer that offers less than it was asked for is grown.
pub open spec fn allocated_by<A: Allocator>(allocator: A, capacity: usize, cap: nat) -> bool {
    &&& cap >= capacity
    &&& exists|bytes: Vec<u8>|
        {
            &&& call_ensures(A::allocate, (&allocator, capacity), bytes)
            &&& cap >= bytes@.len()
            &&& #[trigger] offers_room(bytes, capacity as int, cap)
        }
}

/// The capacity that a request of `size` bytes gets from a pool with the given allocator: that of
/// the recycled block it is served from, or of a fresh allocation of at least the class boundary.
pub open spec fn capacity_given<A: Allocator>(
    allocator: A,
    p: PoolView,
    t: TlsView,
    size: int,
    cap: nat,
) -> bool {
    &&& cap >= least_capacity(size)
    &&& match recycled_capacity(p, t, size) {
        Some(recycled) => cap == recycled,
        None => allocated_by(allocator, least_capacity(size) as usize, cap),
    }
}

impl<A: Allocator> ZeroPool<A> {
    /// The class table is well-formed.
    pub open spec fn wf(&self) -> bool {
        self.state.table.wf()
    }

    /// The capacity is one that the allocator of the pool gives to a request for `capacity` bytes.
    pub open spec fn from_allocator(&self, capacity: usize, cap: nat) -> bool {
        allocated_by(self.state.allocator, capacity, cap)
    }

    /// The capacity that a request of `size` bytes gets: that of the recycled block it is served
    /// from, or of a fresh allocation of at least the class boundary.
    pub open spec fn gives_capacity(&self, t: TlsView, size: usize, cap: nat) -> bool {
        capacity_given(self.state.allocator, self@, t, size as int, cap)
    }

    /// Allocates a raw block of at least `capacity` bytes via the configured allocator.
    fn allocate_raw(&self, capacity: usize) -> (block: Block)
        requires
            capacity <= isize::MAX,
        ensures
            block.storable(capacity as int),
            self.from_allocator(capacity, block.cap()),
    {
        let bytes = self.state.allocator.allocate(capacity);
        let ghost answer = bytes;
        let block = Block::with_room(bytes, capacity);
        assert(offers_room(answer, capacity as int, block.cap()));
        block
    }

    /// Locks a block in physical memory if configured. Best effort.
    fn pin(&self, block: &Block) -> (locked: bool)
        ensures
            locked ==> self.state.pinned_memory && block.cap() > 0,
            self.state.pinned_memory ==> block.answered(locked),
    {
        if !self.state.pinned_memory {
            return false;
        }
        block.pin()
    }

    /// Finds the memory for a request: the thread's cache first, then a batch refill from the
    /// shared class, then a fresh allocation.
    fn acquire(&mut self, tls: &mut TlsState, size: usize) -> (result: (Block, u8))
        requires
            old(self).wf(),
            old(tls).wf(),
            size <= isize::MAX,
        ensures
            final(self).wf(),
            final(tls).wf(),
            final(self)@ == pool_after_alloc(old(self)@, old(tls)@, size as int),
            final(tls)@ == tls_after_alloc(old(self)@, old(tls)@, size as int),
            result.0.storable(least_capacity(size as int)),
            old(self).gives_capacity(old(tls)@, size, result.0.cap()),
            final(self).state.allocator == old(self).state.allocator,
            result.1 == hint_for_size(size as int),
            old(self)@.pinned_memory && recycled_capacity(
                old(self)@,
                old(tls)@,
                size as int,
            ) is None ==> result.0.asked(),
            ({
                let i = class_for_size(size as int)->Some_0;
                let moved = refill_count(old(self)@, i);
                match served(old(self)@, old(tls)@, size as int) {
                    Served::Cached => result.0 == old(tls).caches[i]@.last(),
                    Served::Shared => result.0 == old(self).state.table.classes@[i].blocks()[moved
                        - 1],
                    _ => true,
                }
            }),
    {
        proof {
            lemma_class_for_size(size as int);
            lemma_boundaries();
        }
        let ghost p0 = self@;
        let ghost t0 = tls@;
        if self.state.track_stats {
            self.state.counters.gets = bump(self.state.counters.gets);
        }
        let class_idx: usize = match route_size(size) {
            Some(i) => i,
            None => {
                if self.state.track_stats {
                    self.state.counters.oversize = bump(self.state.counters.oversize);
                    self.state.counters.allocations = bump(self.state.counters.allocations);
                }
                let block = self.allocate_raw(size);
                self.pin(&block);
                assert(self@ =~~= pool_after_alloc(p0, t0, size as int));
                return (block, NO_CLASS);
            },
        };
        let ghost i = class_idx as int;
        if !tls.belongs_to(self.state.id) {
            tls.init_for(self.state.id, self.state.tls_cache_size);
        }
        assert(tls@ =~~= adopted(p0, t0));
        let ghost own = tls.caches[i]@;
        assert(tls@.caches[i] == capacities(own));
        assert(all_storable(own, class_boundary(i)));

        // The thread's own cache.
        if let Some(block) = tls.caches[class_idx].pop() {
            if self.state.track_stats {
                self.state.counters.tls_hits = bump(self.state.counters.tls_hits);
            }
            proof {
                lemma_capacities(own, block);
                assert(tls@.caches =~~= adopted(p0, t0).caches.update(
                    i,
                    adopted(p0, t0).caches[i].drop_last(),
                ));
                assert(self@ =~~= pool_after_alloc(p0, t0, size as int));
            }
            return (block, class_idx as u8);
        }
        // A batch from the shared class.
        let ghost queue = self.state.table.classes@[i].blocks();
        assert(p0.shared[i] == capacities(queue));
        let refilled = tls.refill(
            class_idx,
            &mut self.state.table.classes[class_idx],
            self.state.batch_size,
        );
        if let Some(block) = refilled {
            if self.state.track_stats {
                self.state.counters.shared_hits = bump(self.state.counters.shared_hits);
            }
            proof {
                let moved = refill_count(p0, i);
                assert(own + queue.take(moved) =~= queue.take(moved));
                assert(queue.take(moved).drop_last() =~= queue.take(moved - 1));
                assert(capacities(queue.take(moved - 1)) =~= capacities(queue).take(moved - 1));
                assert(capacities(queue.skip(moved)) =~= capacities(queue).skip(moved));
                assert(self@.shared =~~= p0.shared.update(i, p0.shared[i].skip(moved)));
                assert(tls@.caches =~~= adopted(p0, t0).caches.update(
                    i,
                    p0.shared[i].take(moved - 1),
                ));
                assert(self@ =~~= pool_after_alloc(p0, t0, size as int));
            }
            return (block, class_idx as u8);
        }
        // A fresh allocation.
        if self.state.track_stats {
            self.state.counters.allocations = bump(self.state.counters.allocations);
        }
        let block = self.allocate_raw(ClassTable::boundary(class_idx));
        self.pin(&block);
        proof {
            assert(own + queue.take(0) =~= own);
            assert(queue.skip(0) =~= queue);
            assert(self@.shared =~~= p0.shared);
            assert(tls@.caches =~~= adopted(p0, t0).caches);
            assert(self@ =~~= pool_after_alloc(p0, t0, size as int));
        }
        (block, class_idx as u8)
    }

    /// Puts a block into the cache of a class, spilling a batch to the shared class first if the
    /// cache is full. A block that finds the cache still full goes to the shared class, and one
    /// that finds that full too is dropped.
    fn store(&mut self, tls: &mut TlsState, block: Block, class_idx: usize)
        requires
            old(self).wf(),
            old(tls).wf(),
            class_idx < NUM_CLASSES,
            block.storable(class_boundary(class_idx as int)),
        ensures
            final(self).wf(),
            final(tls).wf(),
            final(self).state.allocator == old(self).state.allocator,
            ({
                let i = class_idx as int;
                let (cache, queue) = stored_in(old(self)@, old(tls)@, i, block.cap());
                let own = adopted(old(self)@, old(tls)@);
                &&& final(self)@ == (PoolView {
                    shared: old(self)@.shared.update(i, queue),
                    ..old(self)@
                })
                &&& final(tls)@ == (TlsView { caches: own.caches.update(i, cache), ..own })
            }),
    {
        let ghost p0 = self@;
        let ghost t0 = tls@;
        let ghost i = class_idx as int;
        let ghost cap = block.cap();
        if !tls.belongs_to(self.state.id) {
            tls.init_for(self.state.id, self.state.tls_cache_size);
        }
        assert(tls@ =~~= adopted(p0, t0));
        let ghost own = tls.caches[i]@;
        let ghost queue = self.state.table.classes@[i].blocks();
        let ghost room = p0.max_buffers - queue.len();
        assert(tls@.caches[i] == capacities(own));
        assert(p0.shared[i] == capacities(queue));
        proof {
            assert(self.state.table.classes@[i].wf());
            lemma_spilled_capacities(own, p0.batch_size as int, room);
        }
        if tls.caches[class_idx].len() >= tls.limit {
            tls.batch_spill(
                class_idx,
                &mut self.state.table.classes[class_idx],
                self.state.batch_size,
            );
        }
        let ghost cache1 = tls.caches[i]@;
        let ghost queue1 = self.state.table.classes@[i].blocks();
        proof {
            let moved = spilled(own, p0.batch_size as int, room);
            assert(capacities(queue + moved) =~= capacities(queue) + capacities(moved));
            assert((capacities(cache1), capacities(queue1)) == made_room(
                capacities(own),
                capacities(queue),
                adopted(p0, t0).limit,
                p0.batch_size,
                p0.max_buffers,
            ));
            lemma_capacities(cache1, block);
            lemma_capacities(queue1, block);
        }
        if tls.caches[class_idx].len() < tls.limit {
            tls.caches[class_idx].push(block);
        } else {
            let _ = self.state.table.classes[class_idx].push(block);
        }
        proof {
            let (cache2, queue2) = stored_in(p0, t0, i, cap);
            assert(self@.shared =~~= p0.shared.update(i, queue2));
            assert(tls@.caches =~~= adopted(p0, t0).caches.update(i, cache2));
        }
    }

    /// Returns a block to the pool for reuse.
    ///
    /// `class_hint` is the class the block was allocated from, or [`NO_CLASS`] for one that
    /// bypassed the classes.
    pub fn dealloc(&mut self, tls: &mut TlsState, buffer: Block, class_hint: u8)
        requires
            old(self).wf(),
            old(tls).wf(),
            buffer.wf(),
            class_hint < NUM_CLASSES || class_hint == NO_CLASS,
        ensures
            final(self).wf(),
            final(tls).wf(),
            final(self).state.allocator == old(self).state.allocator,
            final(self)@ == pool_after_dealloc(old(self)@, old(tls)@, buffer.cap(), class_hint),
            final(tls)@ == tls_after_dealloc(old(self)@, old(tls)@, buffer.cap(), class_hint),
            old(self)@.pinned_memory && class_for_return(
                old(self)@,
                buffer.cap(),
                class_hint,
            ) is Some ==> lock_asked(buffer.cap()),
    {
        let ghost p0 = self@;
        let ghost t0 = tls@;
        let mut buffer = buffer;
        if self.state.track_stats {
            self.state.counters.puts = bump(self.state.counters.puts);
        }
        buffer.clear();
        let cap: usize = buffer.capacity();
        proof {
            lemma_class_for_return(p0, cap as nat, class_hint);
        }
        if class_hint == NO_CLASS || cap < self.state.min_buffer_size {
            if self.state.track_stats {
                self.state.counters.discards = bump(self.state.counters.discards);
            }
            assert(self@ =~~= pool_after_dealloc(p0, t0, cap as nat, class_hint));
            return;
        }
        let class_idx: usize = if cap >= ClassTable::boundary(class_hint as usize) {
            class_hint as usize
        } else {
            match route_capacity(cap) {
                Some(idx) => idx,
                None => {
                    assert(self@ =~~= pool_after_dealloc(p0, t0, cap as nat, class_hint));
                    return;
                },
            }
        };
        self.pin(&buffer);
        assert(p0.pinned_memory ==> buffer.asked());
        let ghost p1 = self@;
        self.store(tls, buffer, class_idx);
        proof {
            assert(adopted(p1, t0) == adopted(p0, t0));
            assert(stored_in(p1, t0, class_idx as int, cap as nat) == stored_in(
                p0,
                t0,
                class_idx as int,
                cap as nat,
            ));
        }
        assert(self@ =~~= pool_after_dealloc(p0, t0, cap as nat, class_hint));
        assert(tls@ =~~= tls_after_dealloc(p0, t0, cap as nat, class_hint));
    }

    /// Returns a block without a class of its own; its capacity decides which class it joins. One
    /// that is larger than every class is discarded.
    pub fn put(&mut self, tls: &mut TlsState, buffer: Block)
        requires
            old(self).wf(),
            old(tls).wf(),
            buffer.wf(),
        ensures
            final(self).wf(),
            final(tls).wf(),
            final(self).state.allocator == old(self).state.allocator,
            final(self)@ == pool_after_put(old(self)@, old(tls)@, buffer.cap()),
            final(tls)@ == tls_after_put(old(self)@, old(tls)@, buffer.cap()),
            old(self)@.pinned_memory && class_for_put(old(self)@, buffer.cap()) is Some
                ==> lock_asked(buffer.cap()),
    {
        proof {
            lemma_put_is_dealloc(self@, tls@, buffer.cap());
            lemma_class_for_size(buffer.cap() as int);
        }
        let class_hint: u8 = match route_size(buffer.capacity()) {
            Some(_) => (NUM_CLASSES - 1) as u8,
            None => NO_CLASS,
        };
        self.dealloc(tls, buffer, class_hint);
    }

    /// Allocates a buffer of exactly `size` bytes, all of them zero.
    ///
    /// The memory comes from the thread's cache, from the shared pool, or from the allocator, in
    /// this order.
    #[must_use]
    pub fn allocate(&mut self, tls: &mut TlsState, size: usize) -> (buf: Buf)
        requires
            old(self).wf(),
            old(tls).wf(),
            size <= isize::MAX,
        ensures
            final(self).wf(),
            final(tls).wf(),
            final(self).state.allocator == old(self).state.allocator,
            final(self)@ == pool_after_alloc(old(self)@, old(tls)@, size as int),
            final(tls)@ == tls_after_alloc(old(self)@, old(tls)@, size as int),
            buf.wf(),
            buf@ == zeros(size as nat),
            buf.hint() == hint_for_size(size as int),
            old(self).gives_capacity(old(tls)@, size, buf.cap()),
            old(self)@.pinned_memory && recycled_capacity(
                old(self)@,
                old(tls)@,
                size as int,
            ) is None ==> lock_asked(buf.cap()),
    {
        let (block, class_idx) = self.acquire(tls, size);
        let mut block = block;
        proof {
            lemma_class_for_size(size as int);
        }
        SizeClass::resize(&mut block, size);
        Buf::new(block, class_idx)
    }

    /// Allocates a buffer of exactly `size` bytes that the caller will overwrite completely.
    #[must_use]
    pub fn alloc_uninit(&mut self, tls: &mut TlsState, size: usize) -> (buf: BufUninit)
        requires
            old(self).wf(),
            old(tls).wf(),
            size <= isize::MAX,
        ensures
            final(self).wf(),
            final(tls).wf(),
            final(self).state.allocator == old(self).state.allocator,
            final(self)@ == pool_after_alloc(old(self)@, old(tls)@, size as int),
            final(tls)@ == tls_after_alloc(old(self)@, old(tls)@, size as int),
            buf.wf(),
            buf@ == zeros(size as nat),
            buf.hint() == hint_for_size(size as int),
            old(self).gives_capacity(old(tls)@, size, buf.cap()),
            old(self)@.pinned_memory && recycled_capacity(
                old(self)@,
                old(tls)@,
                size as int,
            ) is None ==> lock_asked(buf.cap()),
    {
        let (block, class_idx) = self.acquire(tls, size);
        let mut block = block;
        proof {
            lemma_class_for_size(size as int);
        }
        SizeClass::resize(&mut block, size);
        BufUninit::new(block, class_idx)
    }

    /// Allocates a buffer of exactly `size` bytes, all of them zero, that keeps no class.
    #[must_use]
    pub fn get(&mut self, tls: &mut TlsState, size: usize) -> (buffer: PooledBuffer)
        requires
            old(self).wf(),
            old(tls).wf(),
            size <= isize::MAX,
        ensures
            final(self).wf(),
            final(tls).wf(),
            final(self).state.allocator == old(self).state.allocator,
            final(self)@ == pool_after_alloc(old(self)@, old(tls)@, size as int),
            final(tls)@ == tls_after_alloc(old(self)@, old(tls)@, size as int),
            buffer.wf(),
            buffer@ == zeros(size as nat),
            old(self).gives_capacity(old(tls)@, size, buffer.cap()),
            old(self)@.pinned_memory && recycled_capacity(
                old(self)@,
                old(tls)@,
                size as int,
            ) is None ==> lock_asked(buffer.cap()),
    {
        let (block, _) = self.acquire(tls, size);
        let mut block = block;
        proof {
            lemma_class_for_size(size as int);
        }
        SizeClass::resize(&mut block, size);
        PooledBuffer::new(block)
    }

    /// Fills the shared class that serves `size` with up to `count` fresh blocks, as far as there
    /// is room. A size that no class serves does nothing.
    pub fn warm(&mut self, count: usize, size: usize)
        requires
            old(self).wf(),
        ensures
            final(self).wf(),
            final(self).state.allocator == old(self).state.allocator,
            match class_for_size(size as int) {
                None => final(self)@ == old(self)@,
                Some(i) => {
                    let before = old(self)@.shared[i];
                    let after = final(self)@.shared[i];
                    let added = after.skip(before.len() as int);
                    &&& added.len() == min(count as int, old(self)@.max_buffers - before.len())
                    &&& forall|k: int|
                        0 <= k < added.len() ==> old(self).from_allocator(
                            class_boundary(i) as usize,
                            #[trigger] added[k],
                        )
                    &&& old(self)@.pinned_memory ==> forall|k: int|
                        0 <= k < added.len() ==> lock_asked(#[trigger] added[k])
                    &&& final(self)@ == (PoolView {
                        shared: old(self)@.shared.update(i, before + added),
                        ..old(self)@
                    })
                },
            },
    {
        let ghost p0 = self@;
        proof {
            lemma_class_for_size(size as int);
            lemma_boundaries();
        }
        let class_idx: usize = match route_size(size) {
            Some(idx) => idx,
            None => {
                return;
            },
        };
        let ghost i = class_idx as int;
        let ghost before = p0.shared[i];
        let class_size: usize = ClassTable::boundary(class_idx);
        let mut done: usize = 0;
        assert(self.state.table.classes@[i].wf());
        assert(before == capacities(self.state.table.classes@[i].blocks()));
        assert(before.skip(before.len() as int) =~= Seq::<nat>::empty());
        assert(p0.shared =~~= p0.shared.update(i, before + Seq::<nat>::empty()));
        while done < count
            invariant_except_break
                done == self@.shared[i].len() - before.len(),
            invariant
                self.wf(),
                self.state.allocator == old(self).state.allocator,
                p0 == old(self)@,
                before == p0.shared[i],
                i == class_idx,
                class_idx < NUM_CLASSES,
                class_size == class_boundary(i),
                class_size <= isize::MAX,
                done <= count,
                p0.shared.len() == NUM_CLASSES,
                self@.shared[i].len() >= before.len(),
                self@.shared[i].len() <= p0.max_buffers,
                forall|k: int|
                    before.len() <= k < self@.shared[i].len() ==> old(self).from_allocator(
                        class_size,
                        #[trigger] self@.shared[i][k],
                    ),
                p0.pinned_memory ==> forall|k: int|
                    before.len() <= k < self@.shared[i].len() ==> lock_asked(
                        #[trigger] self@.shared[i][k],
                    ),
                self@ == (PoolView {
                    shared: p0.shared.update(
                        i,
                        before + self@.shared[i].skip(before.len() as int),
                    ),
                    ..p0
                }),
            ensures
                self@.shared[i].len() - before.len() == min(
                    count as int,
                    p0.max_buffers - before.len(),
                ),
            decreases count - done,
        {
            let block = self.allocate_raw(class_size);
            self.pin(&block);
            assert(p0.pinned_memory ==> block.asked());
            let ghost now = self@.shared[i];
            let ghost queue = self.state.table.classes@[i].blocks();
            let ghost cap = block.cap();
            proof {
                assert(now == capacities(queue));
                lemma_capacities(queue, block);
                assert(now == (before + now.skip(before.len() as int)));
                assert(self.from_allocator(class_size, cap));
                assert(old(self).from_allocator(class_size, cap));
            }
            let ghost shared0 = self@.shared;
            if self.state.table.classes[class_idx].push(block).is_err() {
                assert(self@.shared =~~= shared0);
                break;
            }
            done = done + 1;
            proof {
                let next = now.push(cap);
                assert(capacities(self.state.table.classes@[i].blocks()) == next);
                assert(self@.shared =~~= shared0.update(i, next));
                assert(next =~= before + next.skip(before.len() as int));
                assert(self@.shared =~~= p0.shared.update(i, next));
                assert(self@ =~~= (PoolView {
                    shared: p0.shared.update(
                        i,
                        before + self@.shared[i].skip(before.len() as int),
                    ),
                    ..p0
                }));
            }
        }
    }

    /// Number of buffers across all shared classes. Thread caches do not count.
    pub fn len(&self) -> (n: usize)
        requires
            self.wf(),
        ensures
            n == total_stored(self@.shared, NUM_CLASSES as int),
    {
        proof {
            lemma_total_stored(self.state.table, NUM_CLASSES as int);
        }
        self.state.table.total_buffered()
    }

    /// Whether all shared classes are empty. Thread caches do not count.
    pub fn is_empty(&self) -> (b: bool)
        requires
            self.wf(),
        ensures
            b == (self@.shared == no_blocks()),
    {
        let b: bool = self.state.table.all_empty();
        proof {
            assert forall|i: int| 0 <= i < NUM_CLASSES implies #[trigger] self@.shared[i]
                == capacities(self.state.table.classes@[i].blocks()) by {}
            if b {
                assert(self@.shared =~~= no_blocks());
            } else if self@.shared == no_blocks() {
                assert forall|i: int| 0 <= i < NUM_CLASSES implies (
                #[trigger] self.state.table.classes@[i]).blocks().len() == 0 by {
                    assert(self@.shared[i] == no_blocks()[i]);
                    assert(self@.shared[i].len() == 0);
                }
            }
        }
        b
    }

    /// Drops all buffers of all shared classes. Thread caches are not touched.
    pub fn drain(&mut self)
        requires
            old(self).wf(),
        ensures
            final(self).wf(),
            final(self).state.allocator == old(self).state.allocator,
            final(self)@ == (PoolView { shared: no_blocks(), ..old(self)@ }),
    {
        self.state.table.clear_all();
        proof {
            assert forall|i: int| 0 <= i < NUM_CLASSES implies #[trigger] self@.shared[i]
                == Seq::<nat>::empty() by {
                assert(self.state.table.classes@[i].blocks() == Seq::<Block>::empty());
                assert(capacities(Seq::<Block>::empty()) =~= Seq::<nat>::empty());
            }
            assert(self@.shared =~~= no_blocks());
        }
    }

    /// Snapshot of the statistics.
    pub fn stats(&self) -> (stats: PoolStats)
        requires
            self.wf(),
        ensures
            stats_match(stats, self@),
    {
        let stats = snapshot(&self.state.counters, self.state.table.classes().as_slice());
        assert forall|i: int| 0 <= i < NUM_CLASSES implies (#[trigger] stats.classes[i]).boundary
            == class_boundary(i) && stats.classes[i].buffered == self@.shared[i].len() by {
            assert(self.state.table.classes@[i].wf());
            assert(self@.shared[i] == capacities(self.state.table.classes@[i].blocks()));
        }
        stats
    }

    /// Resets all counters to zero.
    pub fn reset_stats(&mut self)
        requires
            old(self).wf(),
        ensures
            final(self).wf(),
            final(self).state.allocator == old(self).state.allocator,
            final(self)@ == (PoolView { counters: Counters::zero(), ..old(self)@ }),
    {
        self.state.counters.reset();
    }

    /// Sets the allocator that creates buffers.
    pub fn allocator<B: Allocator>(self, allocator: B) -> (pool: ZeroPool<B>)
        requires
            self.wf(),
        ensures
            pool.wf(),
            pool@ == self@,
            pool.state.allocator == allocator,
    {
        let State {
            id,
            table,
            tls_cache_size,
            min_buffer_size,
            pinned_memory,
            batch_size,
            track_stats,
            counters,
            allocator: _,
        } = self.state;
        ZeroPool {
            state: State {
                id,
                table,
                tls_cache_size,
                min_buffer_size,
                pinned_memory,
                batch_size,
                track_stats,
                counters,
                allocator,
            },
        }
    }

    /// Sets the smallest capacity that is kept on return.
    pub fn min_buffer_size(self, size: usize) -> (pool: Self)
        requires
            self.wf(),
        ensures
            pool.wf(),
            pool.state.allocator == self.state.allocator,
            pool@ == (PoolView { min_buffer_size: size as nat, ..self@ }),
    {
        let mut pool = self;
        pool.state.min_buffer_size = size;
        pool
    }

    /// Sets how many buffers a thread caches per class, and the batch size that goes with it.
    pub fn tls_cache_size(self, size: usize) -> (pool: Self)
        requires
            self.wf(),
            size > 0,
        ensures
            pool.wf(),
            pool.state.allocator == self.state.allocator,
            pool@ == (PoolView {
                tls_cache_size: size as nat,
                batch_size: batch_size_for(size as int) as nat,
                ..self@
            }),
    {
        let mut pool = self;
        pool.state.tls_cache_size = size;
        pool.state.batch_size = default_batch_size(size);
        pool
    }

    /// Sets how many buffers the shared pool keeps per class. The classes start over empty.
    pub fn max_buffers_per_class(self, count: usize) -> (pool: Self)
        requires
            self.wf(),
            valid_limit(count as int),
        ensures
            pool.wf(),
            pool.state.allocator == self.state.allocator,
            pool@ == (PoolView { max_buffers: count as nat, shared: no_blocks(), ..self@ }),
    {
        let mut pool = self;
        pool.state.table = ClassTable::new(count);
        assert(pool@.shared =~~= no_blocks());
        pool
    }

    /// Sets whether allocations are locked in physical memory.
    pub fn pinned_memory(self, enabled: bool) -> (pool: Self)
        requires
            self.wf(),
        ensures
            pool.wf(),
            pool.state.allocator == self.state.allocator,
            pool@ == (PoolView { pinned_memory: enabled, ..self@ }),
    {
        let mut pool = self;
        pool.state.pinned_memory = enabled;
        pool
    }

    /// Sets how many buffers move at once between a thread and the shared pool.
    pub fn batch_size(self, size: usize) -> (pool: Self)
        requires
            self.wf(),
        ensures
            pool.wf(),
            pool.state.allocator == self.state.allocator,
            pool@ == (PoolView { batch_size: size as nat, ..self@ }),
    {
        let mut pool = self;
        pool.state.batch_size = size;
        pool
    }

    /// Sets whether the counters run.
    pub fn track_stats(self, enabled: bool) -> (pool: Self)
        requires
            self.wf(),
        ensures
            pool.wf(),
            pool.state.allocator == self.state.allocator,
            pool@ == (PoolView { track_stats: enabled, ..self@ }),
    {
        let mut pool = self;
        pool.state.track_stats = enabled;
        pool
    }
}

/// A pool with the standard allocator.
pub type BufferPool = ZeroPool<HeapAllocator>;

/// What a pool with the given identity starts as on a machine with `cpus` CPUs.
pub open spec fn default_pool(id: u64, cpus: int) -> PoolView {
    PoolView {
        id,
        max_buffers: max_buffers_for(cpus) as nat,
        tls_cache_size: tls_cache_size_for(cpus) as nat,
        min_buffer_size: 4096,
        pinned_memory: false,
        batch_size: batch_size_for(tls_cache_size_for(cpus)) as nat,
        track_stats: false,
        counters: Counters::zero(),
        shared: no_blocks(),
    }
}

impl ZeroPool<HeapAllocator> {
    /// Creates an empty pool with the given identity and the defaults for a machine with `cpus`
    /// CPUs. Chain the configuration methods to customize it.
    pub fn new(id: u64, cpus: usize) -> (pool: Self)
        ensures
            pool.wf(),
            pool@ == default_pool(id, cpus as int),
            pool.state.allocator == HeapAllocator,
    {
        let tls: usize = default_tls_cache_size(cpus);
        let pool = ZeroPool {
            state: State {
                id,
                table: ClassTable::new(default_max_buffers_per_class(cpus)),
                tls_cache_size: tls,
                min_buffer_size: DEFAULT_MIN_BUFFER_SIZE,
                pinned_memory: false,
                batch_size: default_batch_size(tls),
                track_stats: false,
                counters: Counters::new(),
                allocator: HeapAllocator,
            },
        };
        assert(pool@.shared =~~= no_blocks());
        pool
    }
}

/// A snapshot shows the counters and, class by class, the boundary and the number of shared
/// buffers.
pub open spec fn stats_match(stats: PoolStats, p: PoolView) -> bool {
    &&& stats.gets == p.counters.gets
    &&& stats.tls_hits == p.counters.tls_hits
    &&& stats.shared_hits == p.counters.shared_hits
    &&& stats.allocations == p.counters.allocations
    &&& stats.puts == p.counters.puts
    &&& stats.discards == p.counters.discards
    &&& stats.oversize == p.counters.oversize
    &&& forall|i: int|
        0 <= i < NUM_CLASSES ==> {
            &&& (#[trigger] stats.classes[i]).boundary == class_boundary(i)
            &&& stats.classes[i].buffered == p.shared[i].len()
        }
}

/// Counting blocks counts capacities.
proof fn lemma_total_stored(table: ClassTable, n: int)
    requires
        table.wf(),
        n <= NUM_CLASSES,
    ensures
        total_blocks(table.classes@, n) == total_stored(table.stored(), n),
    decreases n,
{
    if n > 0 {
        lemma_total_stored(table, n - 1);
        assert(table.stored()[n - 1] == capacities(table.classes@[n - 1].blocks()));
    }
}

/// Hands out the identities of pools.
#[derive(Debug)]
pub struct PoolIds {
    next: u64,
}

impl PoolIds {
    /// The identity that is handed out next.
    pub closed spec fn upcoming(&self) -> u64 {
        self.next
    }

    /// Starts with one; zero marks a thread state that belongs to no pool.
    pub fn new() -> (ids: PoolIds)
        ensures
            ids.upcoming() == 1,
    {
        PoolIds { next: 1 }
    }

    /// Hands out an identity; the one after it comes next.
    pub fn issue(&mut self) -> (id: u64)
        ensures
            id == old(self).upcoming(),
            final(self).upcoming() == next_count(id),
    {
        let id: u64 = self.next;
        self.next = bump(id);
        id
    }
}

} // verus!
