//! The pool as a mathematical object.
//!
//! A [`PoolView`] is the configuration, the counters and the capacities stored per class; a
//! [`TlsView`] is what one thread caches. The functions here say what each operation makes of
//! them.

use vstd::prelude::*;

use crate::block::{capacities, Block};
use crate::metrics::{next_count, Counters};
use crate::routing::{
    class_boundary, class_for_capacity, class_for_size, lemma_boundaries, lemma_class_for_capacity,
    lemma_class_for_size, NUM_CLASSES,
};
use crate::tls::{after_spill, min, no_blocks, spilled, TlsView};

verus! {

/// The class index of a buffer that belongs to no class.
pub const NO_CLASS: u8 = 255;

/// A pool: its configuration, its counters and the capacities in shared storage.
#[verifier::ext_equal]
pub struct PoolView {
    /// Identity of the pool.
    pub id: u64,
    /// Most shared blocks per class.
    pub max_buffers: nat,
    /// Blocks a thread caches per class.
    pub tls_cache_size: nat,
    /// Smaller allocations are not kept.
    pub min_buffer_size: nat,
    /// Whether allocations are locked in physical memory.
    pub pinned_memory: bool,
    /// Blocks moved at once between a thread and the shared pool.
    pub batch_size: nat,
    /// Whether the counters run.
    pub track_stats: bool,
    /// The counters.
    pub counters: Counters,
    /// The capacities in shared storage per class, oldest first.
    pub shared: Seq<Seq<nat>>,
}

impl PoolView {
    /// One shared queue per class, none longer than allowed, every stored capacity at least the
    /// boundary of its class.
    pub open spec fn wf(self) -> bool {
        &&& self.shared.len() == NUM_CLASSES
        &&& forall|i: int|
            0 <= i < NUM_CLASSES ==> (#[trigger] self.shared[i]).len() <= self.max_buffers
        &&& forall|i: int, k: int|
            0 <= i < NUM_CLASSES && 0 <= k < self.shared[i].len() ==> #[trigger] self.shared[i][k]
                >= class_boundary(i)
    }
}

impl TlsView {
    /// One cache per class, every cached capacity at least the boundary of its class.
    pub open spec fn wf(self) -> bool {
        &&& self.caches.len() == NUM_CLASSES
        &&& forall|i: int, k: int|
            0 <= i < NUM_CLASSES && 0 <= k < self.caches[i].len() ==> #[trigger] self.caches[i][k]
                >= class_boundary(i)
    }
}

/// The thread state once it belongs to the pool: a state of the same pool stays as it is, any
/// other starts empty.
pub open spec fn adopted(p: PoolView, t: TlsView) -> TlsView {
    if t.pool_id == p.id {
        t
    } else {
        TlsView { pool_id: p.id, limit: p.tls_cache_size, caches: no_blocks() }
    }
}

/// Where the memory for a request comes from.
pub enum Served {
    /// Too large for every class; allocated as asked.
    Oversize,
    /// The thread's own cache.
    Cached,
    /// The shared pool, by a batch refill.
    Shared,
    /// A fresh allocation of the class size.
    Fresh,
}

/// Where the memory for a request of `size` bytes comes from.
pub open spec fn served(p: PoolView, t: TlsView, size: int) -> Served {
    match class_for_size(size) {
        None => Served::Oversize,
        Some(i) => if adopted(p, t).caches[i].len() > 0 {
            Served::Cached
        } else if p.batch_size > 0 && p.shared[i].len() > 0 {
            Served::Shared
        } else {
            Served::Fresh
        },
    }
}

/// How many shared blocks a refill of class `i` moves.
pub open spec fn refill_count(p: PoolView, i: int) -> int {
    min(p.batch_size as int, p.shared[i].len() as int)
}

/// The counters after a request, if they run.
pub open spec fn counted_get(p: PoolView, source: Served) -> Counters {
    let c = p.counters;
    if !p.track_stats {
        c
    } else {
        match source {
            Served::Oversize => Counters {
                gets: next_count(c.gets),
                oversize: next_count(c.oversize),
                allocations: next_count(c.allocations),
                ..c
            },
            Served::Cached => Counters {
                gets: next_count(c.gets),
                tls_hits: next_count(c.tls_hits),
                ..c
            },
            Served::Shared => Counters {
                gets: next_count(c.gets),
                shared_hits: next_count(c.shared_hits),
                ..c
            },
            Served::Fresh => Counters {
                gets: next_count(c.gets),
                allocations: next_count(c.allocations),
                ..c
            },
        }
    }
}

/// The pool after a request of `size` bytes.
pub open spec fn pool_after_alloc(p: PoolView, t: TlsView, size: int) -> PoolView {
    let source = served(p, t, size);
    let counters = counted_get(p, source);
    match class_for_size(size) {
        Some(i) if source is Shared => PoolView {
            counters,
            shared: p.shared.update(i, p.shared[i].skip(refill_count(p, i))),
            ..p
        },
        _ => PoolView { counters, ..p },
    }
}

/// The thread state after a request of `size` bytes. A cached block is taken from the top; a
/// refill puts the moved blocks on top and takes the last of them.
pub open spec fn tls_after_alloc(p: PoolView, t: TlsView, size: int) -> TlsView {
    let source = served(p, t, size);
    let own = adopted(p, t);
    match class_for_size(size) {
        None => t,
        Some(i) => match source {
            Served::Cached => TlsView {
                caches: own.caches.update(i, own.caches[i].drop_last()),
                ..own
            },
            Served::Shared => TlsView {
                caches: own.caches.update(i, p.shared[i].take(refill_count(p, i) - 1)),
                ..own
            },
            _ => own,
        },
    }
}

/// The capacity of the buffer that a request of `size` bytes gets, where the pool determines it.
/// A fresh allocation may be larger than asked, so its capacity is left to the allocator.
pub open spec fn recycled_capacity(p: PoolView, t: TlsView, size: int) -> Option<nat> {
    match class_for_size(size) {
        None => None,
        Some(i) => match served(p, t, size) {
            Served::Cached => Some(adopted(p, t).caches[i].last()),
            Served::Shared => Some(p.shared[i][refill_count(p, i) - 1]),
            _ => None,
        },
    }
}

/// The least capacity that a fresh allocation for `size` bytes has: the boundary of the class
/// that serves the request, or the size itself.
pub open spec fn least_capacity(size: int) -> int {
    match class_for_size(size) {
        None => size,
        Some(i) => class_boundary(i),
    }
}

/// The class index that a buffer of `size` bytes carries.
pub open spec fn hint_for_size(size: int) -> u8 {
    match class_for_size(size) {
        None => NO_CLASS,
        Some(i) => i as u8,
    }
}

/// Whether a returned buffer is discarded: it bypassed the classes or is too small to keep.
pub open spec fn discarded(p: PoolView, cap: nat, hint: u8) -> bool {
    hint == NO_CLASS || cap < p.min_buffer_size
}

/// The class that a returned buffer joins: the one it came from if it still offers that
/// boundary, else the largest one it can serve.
pub open spec fn class_for_return(p: PoolView, cap: nat, hint: u8) -> Option<int> {
    if discarded(p, cap, hint) {
        None
    } else if cap >= class_boundary(hint as int) {
        Some(hint as int)
    } else {
        class_for_capacity(cap as int)
    }
}

/// The counters after a return, if they run.
pub open spec fn counted_put(p: PoolView, cap: nat, hint: u8) -> Counters {
    let c = p.counters;
    if !p.track_stats {
        c
    } else if discarded(p, cap, hint) {
        Counters { puts: next_count(c.puts), discards: next_count(c.discards), ..c }
    } else {
        Counters { puts: next_count(c.puts), ..c }
    }
}

/// The cache and the shared queue of one class before a block joins them: a full cache first
/// spills a batch.
pub open spec fn made_room(
    cache: Seq<nat>,
    queue: Seq<nat>,
    limit: nat,
    batch: nat,
    max_buffers: nat,
) -> (Seq<nat>, Seq<nat>) {
    let room = max_buffers - queue.len();
    if cache.len() >= limit {
        (after_spill(cache, batch as int, room), queue + spilled(cache, batch as int, room))
    } else {
        (cache, queue)
    }
}

/// The cache and the shared queue of one class after a block has joined them: it goes on top of
/// the cache, or to the shared queue if the cache is still full, or nowhere if that is full too.
pub open spec fn stored_block(
    cache: Seq<nat>,
    queue: Seq<nat>,
    limit: nat,
    batch: nat,
    max_buffers: nat,
    cap: nat,
) -> (Seq<nat>, Seq<nat>) {
    let (c, q) = made_room(cache, queue, limit, batch, max_buffers);
    if c.len() < limit {
        (c.push(cap), q)
    } else if q.len() < max_buffers {
        (c, q.push(cap))
    } else {
        (c, q)
    }
}

/// `stored_block` for class `i` of a pool and a thread.
pub open spec fn stored_in(p: PoolView, t: TlsView, i: int, cap: nat) -> (Seq<nat>, Seq<nat>) {
    stored_block(
        adopted(p, t).caches[i],
        p.shared[i],
        adopted(p, t).limit,
        p.batch_size,
        p.max_buffers,
        cap,
    )
}

/// The pool after the return of a buffer.
pub open spec fn pool_after_dealloc(p: PoolView, t: TlsView, cap: nat, hint: u8) -> PoolView {
    let counters = counted_put(p, cap, hint);
    match class_for_return(p, cap, hint) {
        None => PoolView { counters, ..p },
        Some(i) => PoolView {
            counters,
            shared: p.shared.update(i, stored_in(p, t, i, cap).1),
            ..p
        },
    }
}

/// The thread state after the return of a buffer.
pub open spec fn tls_after_dealloc(p: PoolView, t: TlsView, cap: nat, hint: u8) -> TlsView {
    match class_for_return(p, cap, hint) {
        None => t,
        Some(i) => TlsView {
            caches: adopted(p, t).caches.update(i, stored_in(p, t, i, cap).0),
            ..adopted(p, t)
        },
    }
}

/// Whether a returned buffer without a class of its own is discarded: it is too small to keep, or
/// larger than every class.
pub open spec fn plainly_discarded(p: PoolView, cap: nat) -> bool {
    cap < p.min_buffer_size || class_for_size(cap as int) is None
}

/// The class that a buffer without a class of its own joins when it is returned.
pub open spec fn class_for_put(p: PoolView, cap: nat) -> Option<int> {
    if plainly_discarded(p, cap) {
        None
    } else {
        class_for_capacity(cap as int)
    }
}

/// The counters after the return of a buffer without a class of its own, if they run.
pub open spec fn counted_plain_put(p: PoolView, cap: nat) -> Counters {
    let c = p.counters;
    if !p.track_stats {
        c
    } else if plainly_discarded(p, cap) {
        Counters { puts: next_count(c.puts), discards: next_count(c.discards), ..c }
    } else {
        Counters { puts: next_count(c.puts), ..c }
    }
}

/// The pool after the return of a buffer without a class of its own.
pub open spec fn pool_after_put(p: PoolView, t: TlsView, cap: nat) -> PoolView {
    let counters = counted_plain_put(p, cap);
    match class_for_put(p, cap) {
        None => PoolView { counters, ..p },
        Some(i) => PoolView {
            counters,
            shared: p.shared.update(i, stored_in(p, t, i, cap).1),
            ..p
        },
    }
}

/// The thread state after the return of a buffer without a class of its own.
pub open spec fn tls_after_put(p: PoolView, t: TlsView, cap: nat) -> TlsView {
    match class_for_put(p, cap) {
        None => t,
        Some(i) => TlsView {
            caches: adopted(p, t).caches.update(i, stored_in(p, t, i, cap).0),
            ..adopted(p, t)
        },
    }
}

/// The blocks of the first `n` classes, counted together.
pub open spec fn total_stored(stored: Seq<Seq<nat>>, n: int) -> nat
    decreases n,
{
    if n <= 0 {
        0
    } else {
        total_stored(stored, n - 1) + stored[n - 1].len()
    }
}

/// A returned buffer only joins a class whose boundary it offers.
pub proof fn lemma_class_for_return(p: PoolView, cap: nat, hint: u8)
    requires
        hint < NUM_CLASSES || hint == NO_CLASS,
    ensures
        match class_for_return(p, cap, hint) {
            Some(i) => 0 <= i < NUM_CLASSES && class_boundary(i) <= cap,
            None => true,
        },
{
    lemma_class_for_capacity(cap as int);
}

/// The class that a buffer without a class of its own is returned as: the largest one, or none if
/// it is larger than that.
pub open spec fn hint_for_put(cap: nat) -> u8 {
    if class_for_size(cap as int) is None {
        NO_CLASS
    } else {
        (NUM_CLASSES - 1) as u8
    }
}

/// A buffer without a class of its own returns like one of the largest class, or like one that
/// bypassed the classes if it is larger than that.
pub proof fn lemma_put_is_dealloc(p: PoolView, t: TlsView, cap: nat)
    ensures
        pool_after_put(p, t, cap) == pool_after_dealloc(p, t, cap, hint_for_put(cap)),
        tls_after_put(p, t, cap) == tls_after_dealloc(p, t, cap, hint_for_put(cap)),
        class_for_put(p, cap) == class_for_return(p, cap, hint_for_put(cap)),
{
    lemma_class_for_capacity(cap as int);
    lemma_class_for_size(cap as int);
    lemma_boundaries();
    let hint = hint_for_put(cap);
    if cap >= class_boundary(NUM_CLASSES - 1) {
        assert(class_for_capacity(cap as int) == Some(NUM_CLASSES - 1));
    }
    assert(class_for_put(p, cap) == class_for_return(p, cap, hint));
    assert(counted_plain_put(p, cap) == counted_put(p, cap, hint));
}

/// Spilling blocks spills their capacities.
pub proof fn lemma_spilled_capacities(cache: Seq<Block>, batch: int, room: int)
    requires
        0 <= batch,
        0 <= room,
    ensures
        capacities(spilled(cache, batch, room)) == spilled(capacities(cache), batch, room),
        capacities(after_spill(cache, batch, room)) == after_spill(capacities(cache), batch, room),
{
    assert(capacities(spilled(cache, batch, room)) =~= spilled(capacities(cache), batch, room));
    assert(capacities(after_spill(cache, batch, room)) =~= after_spill(
        capacities(cache),
        batch,
        room,
    ));
}

} // verus!
