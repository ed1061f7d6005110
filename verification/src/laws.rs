//! What holds of the pool as a whole.

use vstd::prelude::*;

use crate::allocator::Allocator;
use crate::block::capacities;
use crate::metrics::{next_count, Counters};
use crate::model::{
    adopted, class_for_return, discarded, hint_for_size, least_capacity, lemma_class_for_return,
    made_room, plainly_discarded, pool_after_alloc, pool_after_dealloc, pool_after_put,
    recycled_capacity, refill_count, served, stored_block, stored_in, tls_after_alloc,
    tls_after_dealloc, tls_after_put, total_stored, PoolView, Served, NO_CLASS,
};
use crate::pool::ZeroPool;
use crate::routing::{
    class_boundary, class_for_capacity, class_for_size, lemma_boundaries, lemma_class_for_capacity,
    lemma_class_for_size, NUM_CLASSES,
};
use crate::tls::{min, no_blocks, spilled, TlsState, TlsView};

verus! {

/// Shared storage never exceeds its limit and only holds capacities of at least the class
/// boundary, in every pool that is well-formed; every operation keeps it so.
pub proof fn law_pool_is_sound<A: Allocator>(pool: ZeroPool<A>)
    requires
        pool.wf(),
    ensures
        pool@.wf(),
{
    assert forall|i: int| 0 <= i < NUM_CLASSES implies (#[trigger] pool@.shared[i]).len()
        <= pool@.max_buffers by {
        assert(pool.state.table.classes@[i].wf());
        assert(pool@.shared[i] == capacities(pool.state.table.classes@[i].blocks()));
    }
    assert forall|i: int, k: int| 0 <= i < NUM_CLASSES && 0 <= k < pool@.shared[i].len() implies
        #[trigger] pool@.shared[i][k] >= class_boundary(i) by {
        let class = pool.state.table.classes@[i];
        assert(class.wf());
        assert(pool@.shared[i] == capacities(class.blocks()));
        assert(class.blocks()[k].storable(class_boundary(i)));
    }
}

/// A thread only caches capacities of at least the class boundary.
pub proof fn law_thread_state_is_sound(tls: TlsState)
    requires
        tls.wf(),
    ensures
        tls@.wf(),
{
    assert forall|i: int, k: int| 0 <= i < NUM_CLASSES && 0 <= k < tls@.caches[i].len() implies
        #[trigger] tls@.caches[i][k] >= class_boundary(i) by {
        assert(tls@.caches[i] == capacities(tls.caches[i]@));
        assert(tls.caches[i]@[k].storable(class_boundary(i)));
    }
}

/// A request is always served by at least as many bytes as were asked for, wherever the memory
/// comes from.
pub proof fn law_capacity_suffices(p: PoolView, t: TlsView, size: int)
    requires
        p.wf(),
        t.wf(),
        size >= 0,
    ensures
        least_capacity(size) >= size,
        match recycled_capacity(p, t, size) {
            Some(cap) => cap >= least_capacity(size),
            None => true,
        },
{
    lemma_class_for_size(size);
}

/// A buffer that was returned is the next one handed out for its class, whatever its capacity,
/// if the thread cache has a free place or makes one by spilling. With a free place, returning
/// the buffer and taking it out again leaves pool and thread as they were, up to the counters.
pub proof fn law_returned_buffer_is_reused(
    p: PoolView,
    t: TlsView,
    cap: nat,
    hint: u8,
    size: int,
)
    requires
        p.wf(),
        t.wf(),
        class_for_size(size) == Some(hint as int),
        cap >= class_boundary(hint as int),
        cap >= p.min_buffer_size,
        ({
            let own = adopted(p, t);
            let i = hint as int;
            made_room(own.caches[i], p.shared[i], own.limit, p.batch_size, p.max_buffers).0.len()
                < own.limit
        }),
    ensures
        ({
            let own = adopted(p, t);
            let p1 = pool_after_dealloc(p, t, cap, hint);
            let t1 = tls_after_dealloc(p, t, cap, hint);
            &&& served(p1, t1, size) is Cached
            &&& recycled_capacity(p1, t1, size) == Some(cap)
            &&& own.caches[hint as int].len() < own.limit ==> {
                &&& tls_after_alloc(p1, t1, size) == own
                &&& pool_after_alloc(p1, t1, size).shared == p.shared
            }
        }),
{
    lemma_class_for_size(size);
    let i = hint as int;
    let own = adopted(p, t);
    let p1 = pool_after_dealloc(p, t, cap, hint);
    let t1 = tls_after_dealloc(p, t, cap, hint);
    let room = p.max_buffers - p.shared[i].len();
    let (c, q) = made_room(
        own.caches[i],
        p.shared[i],
        own.limit,
        p.batch_size,
        p.max_buffers,
    );
    assert(c.len() < own.limit);
    assert(stored_in(p, t, i, cap).0 == c.push(cap));
    assert(t1.pool_id == p1.id);
    assert(adopted(p1, t1) == t1);
    assert(t1.caches[i] == c.push(cap));
    if own.caches[i].len() < own.limit {
        assert(c.push(cap).drop_last() =~= own.caches[i]);
        assert(t1.caches.update(i, own.caches[i]) =~= own.caches);
        assert(tls_after_alloc(p1, t1, size) =~= own);
        assert(p1.shared =~= p.shared);
    }
}

/// Taking a buffer and returning it makes the next request for the same size get the very same
/// capacity, as long as the capacity is worth keeping and the thread's cache is within its limit.
pub proof fn law_buffer_returns_to_its_thread(p: PoolView, t: TlsView, size: int, cap: nat)
    requires
        p.wf(),
        t.wf(),
        class_for_size(size) is Some,
        cap >= least_capacity(size),
        recycled_capacity(p, t, size) is Some ==> recycled_capacity(p, t, size) == Some(cap),
        cap >= p.min_buffer_size,
        ({
            let own = adopted(p, t);
            &&& own.limit > 0
            &&& own.caches[class_for_size(size)->Some_0].len() <= own.limit
        }),
    ensures
        ({
            let p1 = pool_after_alloc(p, t, size);
            let t1 = tls_after_alloc(p, t, size);
            let p2 = pool_after_dealloc(p1, t1, cap, hint_for_size(size));
            let t2 = tls_after_dealloc(p1, t1, cap, hint_for_size(size));
            &&& served(p2, t2, size) is Cached
            &&& recycled_capacity(p2, t2, size) == Some(cap)
        }),
{
    lemma_class_for_size(size);
    let i = class_for_size(size)->Some_0;
    let p1 = pool_after_alloc(p, t, size);
    let t1 = tls_after_alloc(p, t, size);
    law_invariants_are_kept_by_allocation(p, t, size);
    assert(t1.pool_id == p.id);
    assert(made_room(t1.caches[i], p1.shared[i], t1.limit, p.batch_size, p.max_buffers).0.len()
        < t1.limit);
    law_returned_buffer_is_reused(p1, t1, cap, hint_for_size(size), size);
}

/// A buffer without a class of its own comes back in the same way, if its capacity is one of the
/// class that served it; a larger one joins a larger class, and one larger than every class is
/// discarded.
pub proof fn law_plain_buffer_returns_to_its_thread(p: PoolView, t: TlsView, size: int, cap: nat)
    requires
        p.wf(),
        t.wf(),
        class_for_size(size) is Some,
        class_for_capacity(cap as int) == class_for_size(size),
        class_for_size(cap as int) is Some,
        recycled_capacity(p, t, size) is Some ==> recycled_capacity(p, t, size) == Some(cap),
        cap >= p.min_buffer_size,
        ({
            let own = adopted(p, t);
            &&& own.limit > 0
            &&& own.caches[class_for_size(size)->Some_0].len() <= own.limit
        }),
    ensures
        ({
            let p1 = pool_after_alloc(p, t, size);
            let t1 = tls_after_alloc(p, t, size);
            let p2 = pool_after_put(p1, t1, cap);
            let t2 = tls_after_put(p1, t1, cap);
            &&& served(p2, t2, size) is Cached
            &&& recycled_capacity(p2, t2, size) == Some(cap)
        }),
{
    lemma_class_for_size(size);
    lemma_class_for_capacity(cap as int);
    let p1 = pool_after_alloc(p, t, size);
    let t1 = tls_after_alloc(p, t, size);
    let hint = hint_for_size(size);
    assert(pool_after_put(p1, t1, cap) == pool_after_dealloc(p1, t1, cap, hint));
    assert(tls_after_put(p1, t1, cap) == tls_after_dealloc(p1, t1, cap, hint));
    law_buffer_returns_to_its_thread(p, t, size, cap);
}

/// Allocation keeps the bounds on shared storage and the least capacities of every class.
pub proof fn law_invariants_are_kept_by_allocation(p: PoolView, t: TlsView, size: int)
    requires
        p.wf(),
        t.wf(),
    ensures
        pool_after_alloc(p, t, size).wf(),
        tls_after_alloc(p, t, size).wf(),
{
    lemma_class_for_size(size);
    let p1 = pool_after_alloc(p, t, size);
    let t1 = tls_after_alloc(p, t, size);
    assert(adopted(p, t).wf());
    if let Some(i) = class_for_size(size) {
        let moved = refill_count(p, i);
        assert forall|j: int, k: int|
            0 <= j < NUM_CLASSES && 0 <= k < p1.shared[j].len() implies #[trigger] p1.shared[j][k]
            >= class_boundary(j) by {
            if served(p, t, size) is Shared && j == i {
                assert(p1.shared[j][k] == p.shared[j][k + moved]);
            } else {
                assert(p1.shared[j][k] == p.shared[j][k]);
            }
        }
        assert forall|j: int, k: int|
            0 <= j < NUM_CLASSES && 0 <= k < t1.caches[j].len() implies #[trigger] t1.caches[j][k]
            >= class_boundary(j) by {
            if served(p, t, size) is Shared && j == i {
                assert(t1.caches[j][k] == p.shared[j][k]);
            } else {
                assert(t1.caches[j][k] == adopted(p, t).caches[j][k]);
            }
        }
    }
}

/// Storing one block keeps the limit of the shared queue and adds only capacities that were
/// there or the one that was returned.
proof fn lemma_stored_block(
    cache: Seq<nat>,
    queue: Seq<nat>,
    limit: nat,
    batch: nat,
    max_buffers: nat,
    cap: nat,
    least: int,
)
    requires
        queue.len() <= max_buffers,
        cap >= least,
        forall|k: int| 0 <= k < cache.len() ==> #[trigger] cache[k] >= least,
        forall|k: int| 0 <= k < queue.len() ==> #[trigger] queue[k] >= least,
    ensures
        ({
            let (c, q) = stored_block(cache, queue, limit, batch, max_buffers, cap);
            &&& q.len() <= max_buffers
            &&& forall|k: int| 0 <= k < c.len() ==> #[trigger] c[k] >= least
            &&& forall|k: int| 0 <= k < q.len() ==> #[trigger] q[k] >= least
            &&& c.len() + q.len() <= cache.len() + queue.len() + 1
            &&& c.len() <= cache.len() || c.len() <= limit
            &&& queue.len() + batch < max_buffers ==> c.len() + q.len() == cache.len()
                + queue.len() + 1
        }),
{
    let room = max_buffers - queue.len();
    let (c1, q1) = made_room(cache, queue, limit, batch, max_buffers);
    if cache.len() >= limit {
        let moved = spilled(cache, batch as int, room);
        assert forall|k: int| 0 <= k < q1.len() implies #[trigger] q1[k] >= least by {
            if k >= queue.len() {
                assert(q1[k] == moved[k - queue.len()]);
                assert(moved[k - queue.len()] == cache[cache.len() - 1 - (k - queue.len())]);
            } else {
                assert(q1[k] == queue[k]);
            }
        }
        assert forall|k: int| 0 <= k < c1.len() implies #[trigger] c1[k] >= least by {
            assert(c1[k] == cache[k]);
        }
    }
    let (c, q) = stored_block(cache, queue, limit, batch, max_buffers, cap);
    assert forall|k: int| 0 <= k < c.len() implies #[trigger] c[k] >= least by {
        if k < c1.len() {
            assert(c[k] == c1[k]);
        }
    }
    assert forall|k: int| 0 <= k < q.len() implies #[trigger] q[k] >= least by {
        if k < q1.len() {
            assert(q[k] == q1[k]);
        }
    }
}

/// The return of a buffer keeps the bounds on shared storage and the least capacities of every
/// class.
pub proof fn law_invariants_are_kept_by_return(p: PoolView, t: TlsView, cap: nat, hint: u8)
    requires
        p.wf(),
        t.wf(),
        hint < NUM_CLASSES || hint == NO_CLASS,
    ensures
        pool_after_dealloc(p, t, cap, hint).wf(),
        tls_after_dealloc(p, t, cap, hint).wf(),
{
    lemma_class_for_return(p, cap, hint);
    let own = adopted(p, t);
    assert(own.wf());
    if let Some(i) = class_for_return(p, cap, hint) {
        lemma_stored_block(
            own.caches[i],
            p.shared[i],
            own.limit,
            p.batch_size,
            p.max_buffers,
            cap,
            class_boundary(i),
        );
        let (c, q) = stored_in(p, t, i, cap);
        let p1 = pool_after_dealloc(p, t, cap, hint);
        let t1 = tls_after_dealloc(p, t, cap, hint);
        assert forall|j: int, k: int|
            0 <= j < NUM_CLASSES && 0 <= k < p1.shared[j].len() implies #[trigger] p1.shared[j][k]
            >= class_boundary(j) by {
            if j == i {
                assert(p1.shared[j][k] == q[k]);
            } else {
                assert(p1.shared[j][k] == p.shared[j][k]);
            }
        }
        assert forall|j: int, k: int|
            0 <= j < NUM_CLASSES && 0 <= k < t1.caches[j].len() implies #[trigger] t1.caches[j][k]
            >= class_boundary(j) by {
            if j == i {
                assert(t1.caches[j][k] == c[k]);
            } else {
                assert(t1.caches[j][k] == own.caches[j][k]);
            }
        }
    }
}

/// A return never makes a thread cache grow beyond its limit, and a request never beyond what
/// one batch leaves.
pub proof fn law_thread_caches_are_bounded(
    p: PoolView,
    t: TlsView,
    cap: nat,
    hint: u8,
    size: int,
    i: int,
)
    requires
        p.wf(),
        t.wf(),
        hint < NUM_CLASSES || hint == NO_CLASS,
        0 <= i < NUM_CLASSES,
    ensures
        ({
            let before = adopted(p, t).caches[i].len();
            let returned = adopted(p, tls_after_dealloc(p, t, cap, hint)).caches[i].len();
            let taken = adopted(p, tls_after_alloc(p, t, size)).caches[i].len();
            &&& returned <= before || returned <= adopted(p, t).limit
            &&& taken <= before || taken < p.batch_size
        }),
{
    lemma_class_for_return(p, cap, hint);
    lemma_class_for_size(size);
    let own = adopted(p, t);
    if let Some(j) = class_for_return(p, cap, hint) {
        lemma_stored_block(
            own.caches[j],
            p.shared[j],
            own.limit,
            p.batch_size,
            p.max_buffers,
            cap,
            class_boundary(j),
        );
    }
}

/// A pool never hands out, or keeps, what another pool cached on the thread: for a thread state
/// of another pool, its caches make no difference to anything that happens.
pub proof fn law_pools_are_isolated(
    p: PoolView,
    t: TlsView,
    other: TlsView,
    size: int,
    cap: nat,
    hint: u8,
)
    requires
        t.pool_id != p.id,
        other.pool_id != p.id,
        0 <= size,
        hint < NUM_CLASSES || hint == NO_CLASS,
    ensures
        !(served(p, t, size) is Cached),
        served(p, t, size) == served(p, other, size),
        recycled_capacity(p, t, size) == recycled_capacity(p, other, size),
        pool_after_alloc(p, t, size) == pool_after_alloc(p, other, size),
        pool_after_dealloc(p, t, cap, hint) == pool_after_dealloc(p, other, cap, hint),
        class_for_size(size) is Some ==> tls_after_alloc(p, t, size) == tls_after_alloc(
            p,
            other,
            size,
        ),
        class_for_return(p, cap, hint) is Some ==> tls_after_dealloc(p, t, cap, hint)
            == tls_after_dealloc(p, other, cap, hint),
{
    lemma_class_for_size(size);
    assert(adopted(p, t) == adopted(p, other));
}

/// Replacing the contents of one class changes the total by the difference.
proof fn lemma_total_after_update(stored: Seq<Seq<nat>>, i: int, next: Seq<nat>, n: int)
    requires
        0 <= i < stored.len(),
        n <= stored.len(),
    ensures
        total_stored(stored.update(i, next), n) == total_stored(stored, n) + (if i < n {
            next.len() - stored[i].len()
        } else {
            0
        }),
    decreases n,
{
    if n > 0 {
        lemma_total_after_update(stored, i, next, n - 1);
    }
}

/// Number of blocks that a pool and a thread that belongs to it hold together.
pub open spec fn held_blocks(p: PoolView, t: TlsView) -> nat {
    total_stored(p.shared, NUM_CLASSES as int) + total_stored(
        adopted(p, t).caches,
        NUM_CLASSES as int,
    )
}

/// A recycled request takes exactly one block out of what pool and thread hold together; any
/// other request takes none.
pub proof fn law_allocation_takes_one_block(p: PoolView, t: TlsView, size: int)
    requires
        p.wf(),
        t.wf(),
    ensures
        held_blocks(pool_after_alloc(p, t, size), tls_after_alloc(p, t, size)) == held_blocks(p, t)
            - (if recycled_capacity(p, t, size) is Some {
            1int
        } else {
            0
        }),
{
    lemma_class_for_size(size);
    let own = adopted(p, t);
    if let Some(i) = class_for_size(size) {
        let moved = refill_count(p, i);
        match served(p, t, size) {
            Served::Cached => {
                lemma_total_after_update(
                    own.caches,
                    i,
                    own.caches[i].drop_last(),
                    NUM_CLASSES as int,
                );
            },
            Served::Shared => {
                lemma_total_after_update(
                    own.caches,
                    i,
                    p.shared[i].take(moved - 1),
                    NUM_CLASSES as int,
                );
                lemma_total_after_update(
                    p.shared,
                    i,
                    p.shared[i].skip(moved),
                    NUM_CLASSES as int,
                );
            },
            _ => {},
        }
    }
}

/// A return adds at most one block to what pool and thread hold together. It adds exactly one
/// when the buffer is kept and the shared class has room for a batch and one more.
pub proof fn law_return_adds_at_most_one_block(p: PoolView, t: TlsView, cap: nat, hint: u8)
    requires
        p.wf(),
        t.wf(),
        hint < NUM_CLASSES || hint == NO_CLASS,
    ensures
        ({
            let after = held_blocks(
                pool_after_dealloc(p, t, cap, hint),
                tls_after_dealloc(p, t, cap, hint),
            );
            &&& after <= held_blocks(p, t) + 1
            &&& match class_for_return(p, cap, hint) {
                None => after == held_blocks(p, t),
                Some(i) => p.shared[i].len() + p.batch_size < p.max_buffers ==> after
                    == held_blocks(p, t) + 1,
            }
        }),
{
    lemma_class_for_return(p, cap, hint);
    let own = adopted(p, t);
    if let Some(i) = class_for_return(p, cap, hint) {
        lemma_stored_block(
            own.caches[i],
            p.shared[i],
            own.limit,
            p.batch_size,
            p.max_buffers,
            cap,
            class_boundary(i),
        );
        let (c, q) = stored_in(p, t, i, cap);
        lemma_total_after_update(own.caches, i, c, NUM_CLASSES as int);
        lemma_total_after_update(p.shared, i, q, NUM_CLASSES as int);
    }
}

/// The shared pool as a whole never holds more than its limit in every class.
pub proof fn law_shared_pool_is_bounded(p: PoolView, n: int)
    requires
        p.wf(),
        0 <= n <= NUM_CLASSES,
    ensures
        total_stored(p.shared, n) <= n * p.max_buffers,
    decreases n,
{
    if n > 0 {
        law_shared_pool_is_bounded(p, n - 1);
        assert(p.shared[n - 1].len() <= p.max_buffers);
        assert(n * p.max_buffers == (n - 1) * p.max_buffers + p.max_buffers) by (nonlinear_arith);
    }
}

/// Buffers that are too small, and buffers that bypassed the classes, leave no trace but in the
/// counters.
pub proof fn law_discarded_buffers_are_not_kept(p: PoolView, t: TlsView, cap: nat, hint: u8)
    requires
        cap < p.min_buffer_size || hint == NO_CLASS,
    ensures
        pool_after_dealloc(p, t, cap, hint).shared == p.shared,
        tls_after_dealloc(p, t, cap, hint) == t,
        p.track_stats ==> pool_after_dealloc(p, t, cap, hint).counters.discards == next_count(
            p.counters.discards,
        ),
{
}

/// A request larger than the largest boundary touches neither the shared pool nor the thread,
/// and its buffer is discarded when it comes back, whether it carries a class or not.
pub proof fn law_oversize_bypasses_the_pool(p: PoolView, t: TlsView, size: int, cap: nat)
    requires
        size > class_boundary(NUM_CLASSES - 1),
    ensures
        served(p, t, size) is Oversize,
        pool_after_alloc(p, t, size).shared == p.shared,
        tls_after_alloc(p, t, size) == t,
        discarded(p, cap, hint_for_size(size)),
        cap >= size ==> {
            &&& plainly_discarded(p, cap)
            &&& pool_after_put(p, t, cap).shared == p.shared
            &&& tls_after_put(p, t, cap) == t
            &&& p.track_stats ==> pool_after_put(p, t, cap).counters.discards == next_count(
                p.counters.discards,
            )
        },
{
    lemma_class_for_size(cap as int);
    lemma_class_for_size(size);
    lemma_boundaries();
}

/// After the shared pool is drained, a thread without cached blocks gets fresh memory.
pub proof fn law_drained_pool_allocates_afresh(p: PoolView, t: TlsView, size: int)
    requires
        p.shared == no_blocks(),
        adopted(p, t).caches == no_blocks(),
    ensures
        served(p, t, size) is Fresh || served(p, t, size) is Oversize,
        recycled_capacity(p, t, size) is None,
{
    lemma_class_for_size(size);
}

/// Shared blocks, such as those a warm-up put there, serve a thread whose cache is empty: one
/// batch moves over, and none of it comes from the allocator.
pub proof fn law_shared_blocks_serve_requests(p: PoolView, t: TlsView, size: int)
    requires
        p.wf(),
        t.wf(),
        p.batch_size > 0,
        class_for_size(size) is Some,
        p.shared[class_for_size(size)->Some_0].len() > 0,
        adopted(p, t).caches[class_for_size(size)->Some_0].len() == 0,
    ensures
        served(p, t, size) is Shared,
        recycled_capacity(p, t, size) is Some,
        recycled_capacity(p, t, size)->Some_0 >= size,
        ({
            let i = class_for_size(size)->Some_0;
            let moved = min(p.batch_size as int, p.shared[i].len() as int);
            &&& pool_after_alloc(p, t, size).shared[i].len() == p.shared[i].len() - moved
            &&& tls_after_alloc(p, t, size).caches[i].len() == moved - 1
        }),
{
    lemma_class_for_size(size);
}

/// Counters that were never reset by an overflow: every request was counted as exactly one of a
/// thread hit, a shared hit and an allocation, oversize requests are allocations, and discarded
/// buffers are returned ones.
pub open spec fn balanced(c: Counters) -> bool {
    &&& c.gets == c.tls_hits + c.shared_hits + c.allocations
    &&& c.oversize <= c.allocations
    &&& c.discards <= c.puts
}

/// The counters start balanced and every operation keeps them so, until one would pass the
/// largest number.
pub proof fn law_counters_are_balanced(p: PoolView, t: TlsView, size: int, cap: nat, hint: u8)
    requires
        balanced(p.counters),
        p.counters.gets < u64::MAX,
        p.counters.puts < u64::MAX,
    ensures
        balanced(Counters::zero()),
        balanced(pool_after_alloc(p, t, size).counters),
        balanced(pool_after_dealloc(p, t, cap, hint).counters),
{
}

/// Hit rates lie between zero and one.
pub proof fn law_hits_do_not_exceed_requests(c: Counters)
    requires
        balanced(c),
    ensures
        c.tls_hits + c.shared_hits <= c.gets,
        c.tls_hits <= c.gets,
{
}

/// With tracking off no operation changes a counter; with tracking on every request counts once
/// and every return counts once.
pub proof fn law_counters_run_only_when_tracked(
    p: PoolView,
    t: TlsView,
    size: int,
    cap: nat,
    hint: u8,
)
    ensures
        !p.track_stats ==> pool_after_alloc(p, t, size).counters == p.counters,
        !p.track_stats ==> pool_after_dealloc(p, t, cap, hint).counters == p.counters,
        p.track_stats ==> pool_after_alloc(p, t, size).counters.gets == next_count(
            p.counters.gets,
        ),
        p.track_stats ==> pool_after_dealloc(p, t, cap, hint).counters.puts == next_count(
            p.counters.puts,
        ),
{
}

/// Neither a request nor a return changes the identity or the configuration of a pool.
pub proof fn law_configuration_is_kept(p: PoolView, t: TlsView, size: int, cap: nat, hint: u8)
    ensures
        pool_after_alloc(p, t, size) == (PoolView {
            counters: pool_after_alloc(p, t, size).counters,
            shared: pool_after_alloc(p, t, size).shared,
            ..p
        }),
        pool_after_dealloc(p, t, cap, hint) == (PoolView {
            counters: pool_after_dealloc(p, t, cap, hint).counters,
            shared: pool_after_dealloc(p, t, cap, hint).shared,
            ..p
        }),
{
}

/// The identity after `k` others have been handed out.
pub open spec fn nth_identity(first: u64, k: nat) -> u64
    decreases k,
{
    if k == 0 {
        first
    } else {
        next_count(nth_identity(first, (k - 1) as nat))
    }
}

/// Identities count up, so they are distinct and never zero until all of them are used up.
pub proof fn law_identities_are_distinct(j: nat, k: nat)
    requires
        j < k < u64::MAX,
    ensures
        nth_identity(1, j) == 1 + j,
        nth_identity(1, k) == 1 + k,
        nth_identity(1, j) != nth_identity(1, k),
        nth_identity(1, j) != 0,
        nth_identity(1, k) != 0,
{
    lemma_nth_identity(j);
    lemma_nth_identity(k);
}

proof fn lemma_nth_identity(k: nat)
    requires
        k < u64::MAX,
    ensures
        nth_identity(1, k) == 1 + k,
    decreases k,
{
    if k > 0 {
        lemma_nth_identity((k - 1) as nat);
    }
}

} // verus!
