//! What requests and returns do, case by case, in terms of what pool and thread hold.

use vstd::prelude::*;

use crate::allocator::Allocator;
use crate::block::{capacities, offers_room};
use crate::metrics::{Counters, PoolStats};
use crate::model::{
    hint_for_size, least_capacity, pool_after_alloc, pool_after_dealloc, pool_after_put,
    recycled_capacity, tls_after_alloc, tls_after_dealloc, tls_after_put, total_stored, PoolView,
};
use crate::pool::{allocated_by, capacity_given, default_pool, stats_match, ZeroPool};
use crate::routing::{
    class_boundary, class_for_capacity, class_for_size, lemma_boundaries, lemma_boundaries_increase,
    lemma_class_for_capacity, lemma_class_for_size,
};
use crate::tls::{after_spill, no_blocks, spilled, TlsState, TlsView};

verus! {

/// Class `i` is the smallest one that can hold `size` bytes.
pub open spec fn serves(i: int, size: int) -> bool {
    &&& 0 <= i < 8
    &&& size <= class_boundary(i)
    &&& i > 0 ==> class_boundary(i - 1) < size
}

/// Class `i` is the largest one that a capacity can serve.
pub open spec fn joins(i: int, cap: nat) -> bool {
    &&& 0 <= i < 8
    &&& class_boundary(i) <= cap
    &&& i < 7 ==> cap < class_boundary(i + 1)
}

/// What the thread caches for the pool in class `i`; a thread that works for another pool caches
/// nothing for this one.
pub open spec fn own_cache(p: PoolView, t: TlsView, i: int) -> Seq<nat> {
    if t.pool_id == p.id {
        t.caches[i]
    } else {
        Seq::empty()
    }
}

/// How many blocks per class the thread may cache for the pool; one that worked for another pool
/// gets the configured number.
pub open spec fn own_limit(p: PoolView, t: TlsView) -> nat {
    if t.pool_id == p.id {
        t.limit
    } else {
        p.tls_cache_size
    }
}

/// The thread works for the pool, within its limit; class `i` of its cache is `cache`, and the
/// other classes are what they were.
pub open spec fn now_caches(
    p: PoolView,
    t: TlsView,
    after: TlsView,
    i: int,
    cache: Seq<nat>,
) -> bool {
    &&& after.pool_id == p.id
    &&& after.limit == own_limit(p, t)
    &&& after.caches.len() == 8
    &&& after.caches[i] == cache
    &&& forall|j: int|
        0 <= j < 8 && j != i ==> #[trigger] after.caches[j] == own_cache(p, t, j)
}

/// Class `i` of the shared storage is `queue`; the other classes and the configuration are what
/// they were.
pub open spec fn now_shares(p: PoolView, after: PoolView, i: int, queue: Seq<nat>) -> bool {
    &&& after.shared.len() == p.shared.len()
    &&& after.shared[i] == queue
    &&& forall|j: int| 0 <= j < 8 && j != i ==> #[trigger] after.shared[j] == p.shared[j]
    &&& keeps_configuration(p, after)
}

/// Identity and configuration are what they were.
pub open spec fn keeps_configuration(p: PoolView, after: PoolView) -> bool {
    &&& after.id == p.id
    &&& after.max_buffers == p.max_buffers
    &&& after.tls_cache_size == p.tls_cache_size
    &&& after.min_buffer_size == p.min_buffer_size
    &&& after.pinned_memory == p.pinned_memory
    &&& after.batch_size == p.batch_size
    &&& after.track_stats == p.track_stats
}

/// The counter went up by one if it was to count, and is what it was otherwise. After the largest
/// number comes zero.
pub open spec fn counted(before: u64, after: u64, counts: bool) -> bool {
    after == if !counts {
        before as int
    } else if before < u64::MAX {
        before + 1
    } else {
        0
    }
}

/// Which counters a request or a return moves.
pub struct Moves {
    /// A request.
    pub gets: bool,
    /// Served by the thread.
    pub tls_hits: bool,
    /// Served by the shared storage.
    pub shared_hits: bool,
    /// Served by the allocator.
    pub allocations: bool,
    /// A return.
    pub puts: bool,
    /// Not kept on return.
    pub discards: bool,
    /// Larger than every class.
    pub oversize: bool,
}

/// With tracking on the given counters went up by one; all others, and with tracking off all of
/// them, are what they were.
pub open spec fn moved(p: PoolView, after: PoolView, moves: Moves) -> bool {
    let (a, b, on) = (p.counters, after.counters, p.track_stats);
    &&& counted(a.gets, b.gets, on && moves.gets)
    &&& counted(a.tls_hits, b.tls_hits, on && moves.tls_hits)
    &&& counted(a.shared_hits, b.shared_hits, on && moves.shared_hits)
    &&& counted(a.allocations, b.allocations, on && moves.allocations)
    &&& counted(a.puts, b.puts, on && moves.puts)
    &&& counted(a.discards, b.discards, on && moves.discards)
    &&& counted(a.oversize, b.oversize, on && moves.oversize)
}

/// A request moves the counter of requests and those given.
pub open spec fn request(
    tls_hits: bool,
    shared_hits: bool,
    allocations: bool,
    oversize: bool,
) -> Moves {
    Moves { gets: true, tls_hits, shared_hits, allocations, puts: false, discards: false, oversize }
}

/// A return moves the counter of returns, and that of discarded buffers where it was one.
pub open spec fn returned(discards: bool) -> Moves {
    Moves {
        gets: false,
        tls_hits: false,
        shared_hits: false,
        allocations: false,
        puts: true,
        discards,
        oversize: false,
    }
}

/// There is one smallest class for a request.
pub proof fn lemma_serves(i: int, size: int)
    requires
        serves(i, size),
    ensures
        class_for_size(size) == Some(i),
{
    lemma_boundaries();
    lemma_class_for_size(size);
    let c = class_for_size(size)->Some_0;
    if c < i {
        if c < i - 1 {
            lemma_boundaries_increase(c, i - 1);
        }
    } else if i < c {
        assert(class_boundary(i) < size);
    }
}

/// There is one largest class for a capacity.
proof fn lemma_joins(i: int, cap: nat)
    requires
        joins(i, cap),
    ensures
        class_for_capacity(cap as int) == Some(i),
{
    lemma_boundaries();
    lemma_class_for_capacity(cap as int);
    let c = class_for_capacity(cap as int)->Some_0;
    if c < i {
        assert(cap < class_boundary(i));
    } else if i < c {
        if i + 1 < c {
            lemma_boundaries_increase(i + 1, c);
        }
    }
}

/// A thread that caches a block of the class hands out the one it cached last; nothing else
/// changes but the counters of requests and of thread hits.
pub proof fn law_thread_hit(p: PoolView, t: TlsView, size: int, i: int)
    requires
        p.wf(),
        t.wf(),
        serves(i, size),
        own_cache(p, t, i).len() > 0,
    ensures
        recycled_capacity(p, t, size) == Some(t.caches[i][t.caches[i].len() - 1]),
        now_caches(p, t, tls_after_alloc(p, t, size), i, t.caches[i].take(t.caches[i].len() - 1)),
        now_shares(p, pool_after_alloc(p, t, size), i, p.shared[i]),
        moved(p, pool_after_alloc(p, t, size), request(true, false, false, false)),
        hint_for_size(size) == i,
{
    lemma_serves(i, size);
}

/// A thread with nothing cached in the class takes one batch from the shared storage, or all there
/// is if that is less, oldest first. It hands out the newest of them and caches the rest.
pub proof fn law_shared_hit(p: PoolView, t: TlsView, size: int, i: int, n: int)
    requires
        p.wf(),
        t.wf(),
        serves(i, size),
        own_cache(p, t, i).len() == 0,
        0 < n <= p.batch_size,
        n <= p.shared[i].len(),
        n == p.batch_size || n == p.shared[i].len(),
    ensures
        recycled_capacity(p, t, size) == Some(p.shared[i][n - 1]),
        now_caches(p, t, tls_after_alloc(p, t, size), i, p.shared[i].take(n - 1)),
        now_shares(p, pool_after_alloc(p, t, size), i, p.shared[i].skip(n)),
        moved(p, pool_after_alloc(p, t, size), request(false, true, false, false)),
        hint_for_size(size) == i,
{
    lemma_serves(i, size);
}

/// Where neither the thread nor the shared storage has a block, the allocator is asked for the
/// class boundary; nothing else changes but the counters of requests and of allocations.
pub proof fn law_miss(p: PoolView, t: TlsView, size: int, i: int)
    requires
        p.wf(),
        t.wf(),
        serves(i, size),
        own_cache(p, t, i).len() == 0,
        p.batch_size == 0 || p.shared[i].len() == 0,
    ensures
        recycled_capacity(p, t, size) is None,
        least_capacity(size) == class_boundary(i),
        now_caches(p, t, tls_after_alloc(p, t, size), i, Seq::empty()),
        now_shares(p, pool_after_alloc(p, t, size), i, p.shared[i]),
        moved(p, pool_after_alloc(p, t, size), request(false, false, true, false)),
        hint_for_size(size) == i,
{
    lemma_serves(i, size);
    assert(own_cache(p, t, i) =~= Seq::empty());
}

/// For a request above 64 MiB the allocator is asked for the size itself. Pool and thread are left
/// alone; the counters of requests, allocations and oversize requests move.
pub proof fn law_oversize_request(p: PoolView, t: TlsView, size: int)
    requires
        size > 67108864,
    ensures
        recycled_capacity(p, t, size) is None,
        least_capacity(size) == size,
        tls_after_alloc(p, t, size) == t,
        pool_after_alloc(p, t, size).shared == p.shared,
        keeps_configuration(p, pool_after_alloc(p, t, size)),
        moved(p, pool_after_alloc(p, t, size), request(false, false, true, true)),
        hint_for_size(size) == 255,
{
    lemma_boundaries();
    lemma_class_for_size(size);
}

/// The capacity of a buffer is that of the recycled block, or one that the allocator gave for what
/// it was asked for.
pub proof fn law_capacity_given<A: Allocator>(
    allocator: A,
    p: PoolView,
    t: TlsView,
    size: int,
    cap: nat,
)
    requires
        capacity_given(allocator, p, t, size, cap),
    ensures
        recycled_capacity(p, t, size) is Some ==> recycled_capacity(p, t, size) == Some(cap),
        recycled_capacity(p, t, size) is None ==> allocated_by(
            allocator,
            least_capacity(size) as usize,
            cap,
        ),
        size <= 67108864 ==> exists|i: int| serves(i, size) && cap >= class_boundary(i),
        cap >= size,
{
    lemma_boundaries();
    lemma_class_for_size(size);
    if size <= 67108864 {
        let i = class_for_size(size)->Some_0;
        if i > 0 {
            assert(class_boundary(i - 1) < size);
        }
        assert(serves(i, size));
    }
}

/// A capacity that the allocator gave covers what was asked for and comes from an answer of the
/// allocator to exactly that request.
pub proof fn law_allocated_by<A: Allocator>(allocator: A, capacity: usize, cap: nat)
    requires
        allocated_by(allocator, capacity, cap),
    ensures
        cap >= capacity,
        exists|bytes: Vec<u8>|
            {
                &&& call_ensures(A::allocate, (&allocator, capacity), bytes)
                &&& cap >= bytes@.len()
                &&& #[trigger] offers_room(bytes, capacity as int, cap)
            },
{
}

/// A returned buffer that bypassed the classes, or whose capacity is below the smallest that is
/// kept, is not kept, and is counted as discarded.
pub proof fn law_discarding_return(p: PoolView, t: TlsView, cap: nat, hint: u8)
    requires
        hint == 255 || cap < p.min_buffer_size,
    ensures
        tls_after_dealloc(p, t, cap, hint) == t,
        pool_after_dealloc(p, t, cap, hint).shared == p.shared,
        keeps_configuration(p, pool_after_dealloc(p, t, cap, hint)),
        moved(p, pool_after_dealloc(p, t, cap, hint), returned(true)),
{
}

/// A returned buffer of a class that is large enough to keep but too small for any class is not
/// kept and not counted as discarded.
pub proof fn law_classless_return(p: PoolView, t: TlsView, cap: nat, hint: u8)
    requires
        hint < 8,
        p.min_buffer_size <= cap < 4096,
    ensures
        tls_after_dealloc(p, t, cap, hint) == t,
        pool_after_dealloc(p, t, cap, hint).shared == p.shared,
        keeps_configuration(p, pool_after_dealloc(p, t, cap, hint)),
        moved(p, pool_after_dealloc(p, t, cap, hint), returned(false)),
{
    lemma_boundaries();
    lemma_class_for_capacity(cap as int);
    if hint > 0 {
        lemma_boundaries_increase(0, hint as int);
    }
}

/// The buffer is kept in class `i`: the class it came from, if it still offers that much, else the
/// largest one it can serve.
pub open spec fn kept_in(p: PoolView, cap: nat, hint: u8, i: int) -> bool {
    &&& hint < 8
    &&& cap >= p.min_buffer_size
    &&& if cap >= class_boundary(hint as int) {
        i == hint
    } else {
        joins(i, cap)
    }
}

proof fn lemma_kept_in(p: PoolView, cap: nat, hint: u8, i: int)
    requires
        kept_in(p, cap, hint, i),
    ensures
        crate::model::class_for_return(p, cap, hint) == Some(i),
        0 <= i < 8,
{
    if cap < class_boundary(hint as int) {
        lemma_joins(i, cap);
    }
}

/// A kept buffer goes on top of the thread's cache as long as that is below its limit. The shared
/// storage stays as it is, and the buffer does not count as discarded.
pub proof fn law_return_to_the_thread(p: PoolView, t: TlsView, cap: nat, hint: u8, i: int)
    requires
        p.wf(),
        t.wf(),
        kept_in(p, cap, hint, i),
        own_cache(p, t, i).len() < own_limit(p, t),
    ensures
        now_caches(p, t, tls_after_dealloc(p, t, cap, hint), i, own_cache(p, t, i).push(cap)),
        now_shares(p, pool_after_dealloc(p, t, cap, hint), i, p.shared[i]),
        moved(p, pool_after_dealloc(p, t, cap, hint), returned(false)),
{
    lemma_kept_in(p, cap, hint, i);
    assert(own_cache(p, t, i) == crate::model::adopted(p, t).caches[i]);
}

/// A kept buffer that finds the thread's cache at its limit first makes it spill. The `n` newest
/// cached blocks, a whole batch or all there are, go to the end of the shared class, the newest of
/// them first, as far as there is room; the first that finds none is lost, and the spill ends.
/// Then the buffer goes on top of the cache if that is below its limit now, else to the shared
/// class if that has room, else nowhere. It does not count as discarded.
pub proof fn law_return_with_a_spill(p: PoolView, t: TlsView, cap: nat, hint: u8, i: int, n: int)
    requires
        p.wf(),
        t.wf(),
        kept_in(p, cap, hint, i),
        own_cache(p, t, i).len() >= own_limit(p, t),
        0 <= n <= p.batch_size,
        n <= own_cache(p, t, i).len(),
        n == p.batch_size || n == own_cache(p, t, i).len(),
    ensures
        ({
            let cache = own_cache(p, t, i);
            let len = cache.len();
            let room = p.max_buffers - p.shared[i].len();
            let went: int = if n <= room {
                n
            } else {
                room
            };
            let lost: int = if n <= room {
                0
            } else {
                1
            };
            let rest = cache.take(len - went - lost);
            let queue = p.shared[i] + Seq::new(went as nat, |k: int| cache[len - 1 - k]);
            let p1 = pool_after_dealloc(p, t, cap, hint);
            let t1 = tls_after_dealloc(p, t, cap, hint);
            &&& moved(p, p1, returned(false))
            &&& if rest.len() < own_limit(p, t) {
                now_caches(p, t, t1, i, rest.push(cap)) && now_shares(p, p1, i, queue)
            } else if queue.len() < p.max_buffers {
                now_caches(p, t, t1, i, rest) && now_shares(p, p1, i, queue.push(cap))
            } else {
                now_caches(p, t, t1, i, rest) && now_shares(p, p1, i, queue)
            }
        }),
{
    lemma_kept_in(p, cap, hint, i);
    let own = crate::model::adopted(p, t);
    let cache = own_cache(p, t, i);
    let room = p.max_buffers - p.shared[i].len();
    assert(own.caches[i] =~= cache);
    assert(spilled(cache, p.batch_size as int, room) =~= Seq::new(
        (if n <= room {
            n
        } else {
            room
        }) as nat,
        |k: int| cache[cache.len() - 1 - k],
    ));
    assert(after_spill(cache, p.batch_size as int, room) =~= cache.take(
        cache.len() - (if n <= room {
            n
        } else {
            room + 1
        }),
    ));
}

/// When a kept buffer returns to a full thread cache that holds a batch, and the shared class has
/// room for one, exactly one batch moves: the shared class grows by that many blocks and the cache
/// ends up with one fewer than that less.
pub proof fn law_full_cache_spills_one_batch(p: PoolView, t: TlsView, cap: nat, hint: u8, i: int)
    requires
        p.wf(),
        t.wf(),
        kept_in(p, cap, hint, i),
        own_cache(p, t, i).len() == own_limit(p, t),
        0 < p.batch_size <= own_cache(p, t, i).len(),
        p.shared[i].len() + p.batch_size <= p.max_buffers,
    ensures
        pool_after_dealloc(p, t, cap, hint).shared[i].len() == p.shared[i].len() + p.batch_size,
        tls_after_dealloc(p, t, cap, hint).caches[i].len() == own_cache(p, t, i).len()
            - p.batch_size + 1,
{
    law_return_with_a_spill(p, t, cap, hint, i, p.batch_size as int);
}

/// A return counts as discarded exactly when the buffer bypassed the classes or is too small to
/// keep; every return counts as a return.
pub proof fn law_discards_are_the_buffers_not_worth_keeping(
    p: PoolView,
    t: TlsView,
    cap: nat,
    hint: u8,
)
    requires
        p.track_stats,
        hint < 8 || hint == 255,
    ensures
        pool_after_dealloc(p, t, cap, hint).counters.discards != p.counters.discards <==> hint
            == 255 || cap < p.min_buffer_size,
        counted(p.counters.puts, pool_after_dealloc(p, t, cap, hint).counters.puts, true),
        pool_after_put(p, t, cap).counters.discards != p.counters.discards <==> cap > 67108864
            || cap < p.min_buffer_size,
        counted(p.counters.puts, pool_after_put(p, t, cap).counters.puts, true),
{
    lemma_boundaries();
    lemma_class_for_size(cap as int);
}

/// A buffer without a class of its own is discarded if it is too small to keep or larger than
/// 64 MiB.
pub proof fn law_discarding_plain_return(p: PoolView, t: TlsView, cap: nat)
    requires
        cap < p.min_buffer_size || cap > 67108864,
    ensures
        tls_after_put(p, t, cap) == t,
        pool_after_put(p, t, cap).shared == p.shared,
        keeps_configuration(p, pool_after_put(p, t, cap)),
        moved(p, pool_after_put(p, t, cap), returned(true)),
{
    lemma_boundaries();
    lemma_class_for_size(cap as int);
}

/// A buffer without a class of its own that is large enough to keep but too small for any class is
/// not kept and not counted as discarded.
pub proof fn law_classless_plain_return(p: PoolView, t: TlsView, cap: nat)
    requires
        p.min_buffer_size <= cap < 4096,
    ensures
        tls_after_put(p, t, cap) == t,
        pool_after_put(p, t, cap).shared == p.shared,
        keeps_configuration(p, pool_after_put(p, t, cap)),
        moved(p, pool_after_put(p, t, cap), returned(false)),
{
    lemma_boundaries();
    lemma_class_for_size(cap as int);
    lemma_class_for_capacity(cap as int);
}

/// Any other buffer without a class of its own returns like one of the largest class that it can
/// serve.
pub proof fn law_plain_return(p: PoolView, t: TlsView, cap: nat, i: int)
    requires
        p.min_buffer_size <= cap <= 67108864,
        joins(i, cap),
    ensures
        pool_after_put(p, t, cap) == pool_after_dealloc(p, t, cap, i as u8),
        tls_after_put(p, t, cap) == tls_after_dealloc(p, t, cap, i as u8),
{
    lemma_boundaries();
    lemma_class_for_size(cap as int);
    lemma_joins(i, cap);
}

/// Pool and thread after the return of several buffers of one class, one after the other.
pub open spec fn after_returns(
    p: PoolView,
    t: TlsView,
    caps: Seq<nat>,
    hint: u8,
) -> (PoolView, TlsView)
    decreases caps.len(),
{
    if caps.len() == 0 {
        (p, t)
    } else {
        let (p1, t1) = after_returns(p, t, caps.drop_last(), hint);
        (
            pool_after_dealloc(p1, t1, caps.last(), hint),
            tls_after_dealloc(p1, t1, caps.last(), hint),
        )
    }
}

/// A thread keeps as many buffers per class as were configured: as long as the cache has room, any
/// number of kept buffers that return all stay in it, in order, and the shared storage does not
/// change.
pub proof fn law_cache_holds_what_was_configured(p: PoolView, t: TlsView, caps: Seq<nat>, hint: u8)
    requires
        p.wf(),
        t.wf(),
        hint < 8,
        caps.len() > 0,
        forall|k: int|
            0 <= k < caps.len() ==> #[trigger] caps[k] >= p.min_buffer_size && caps[k]
                >= class_boundary(hint as int),
        own_cache(p, t, hint as int).len() + caps.len() <= own_limit(p, t),
    ensures
        ({
            let (p1, t1) = after_returns(p, t, caps, hint);
            let i = hint as int;
            &&& now_caches(p, t, t1, i, own_cache(p, t, i) + caps)
            &&& now_shares(p, p1, i, p.shared[i])
            &&& p1.wf()
            &&& t1.wf()
        }),
    decreases caps.len(),
{
    let i = hint as int;
    let before = caps.drop_last();
    let (p1, t1) = after_returns(p, t, before, hint);
    if before.len() > 0 {
        assert forall|k: int| 0 <= k < before.len() implies #[trigger] before[k]
            >= p.min_buffer_size && before[k] >= class_boundary(i) by {
            assert(before[k] == caps[k]);
        }
        law_cache_holds_what_was_configured(p, t, before, hint);
    }
    let own = own_cache(p1, t1, i);
    assert(own =~= own_cache(p, t, i) + before);
    law_return_to_the_thread(p1, t1, caps.last(), hint, i);
    crate::laws::law_invariants_are_kept_by_return(p1, t1, caps.last(), hint);
    assert(own.push(caps.last()) =~= own_cache(p, t, i) + caps);
}

/// Pool and thread after several requests for the same size, one after the other.
pub open spec fn after_requests(p: PoolView, t: TlsView, size: int, n: nat) -> (PoolView, TlsView)
    decreases n,
{
    if n == 0 {
        (p, t)
    } else {
        let (p1, t1) = after_requests(p, t, size, (n - 1) as nat);
        (pool_after_alloc(p1, t1, size), tls_after_alloc(p1, t1, size))
    }
}

/// One batch from the shared storage serves as many requests of a thread as it has blocks, the
/// newest first, and the allocator is asked for nothing.
pub proof fn law_batch_serves_its_number_of_requests(
    p: PoolView,
    t: TlsView,
    size: int,
    i: int,
    batch: int,
    n: nat,
)
    requires
        p.wf(),
        t.wf(),
        serves(i, size),
        own_cache(p, t, i).len() == 0,
        0 < batch <= p.batch_size,
        batch <= p.shared[i].len(),
        batch == p.batch_size || batch == p.shared[i].len(),
        0 < n <= batch,
    ensures
        ({
            let (p0, t0) = after_requests(p, t, size, (n - 1) as nat);
            let (p1, t1) = after_requests(p, t, size, n);
            &&& recycled_capacity(p0, t0, size) == Some(p.shared[i][batch - n])
            &&& now_caches(p, t, t1, i, p.shared[i].take(batch - n))
            &&& now_shares(p, p1, i, p.shared[i].skip(batch))
            &&& p1.counters.allocations == p.counters.allocations
            &&& p1.wf()
            &&& t1.wf()
        }),
    decreases n,
{
    let m = (n - 1) as nat;
    let (p0, t0) = after_requests(p, t, size, m);
    if n == 1 {
        law_shared_hit(p, t, size, i, batch);
    } else {
        law_batch_serves_its_number_of_requests(p, t, size, i, batch, m);
        law_thread_hit(p0, t0, size, i);
        assert(t0.caches[i].take(t0.caches[i].len() - 1) =~= p.shared[i].take(batch - n));
    }
    crate::laws::law_invariants_are_kept_by_allocation(p0, t0, size);
}

/// A spill hands over the newest blocks, newest first, and keeps the oldest in order; together
/// they are what there was, but for one block if the room ran out.
pub proof fn law_spill<T>(cache: Seq<T>, batch: int, room: int)
    requires
        0 <= batch,
        0 <= room,
    ensures
        ({
            let gone = spilled(cache, batch, room);
            let rest = after_spill(cache, batch, room);
            &&& gone.len() <= batch
            &&& gone.len() <= room
            &&& gone.len() == batch || gone.len() == room || rest.len() == 0
            &&& rest.len() + gone.len() == cache.len() || (rest.len() + gone.len() + 1
                == cache.len() && gone.len() == room && room < batch)
            &&& gone.len() == room && room < batch && room < cache.len() ==> rest.len()
                + gone.len() + 1 == cache.len()
            &&& forall|k: int| 0 <= k < rest.len() ==> #[trigger] rest[k] == cache[k]
            &&& forall|k: int|
                0 <= k < gone.len() ==> #[trigger] gone[k] == cache[cache.len() - 1 - k]
        }),
{
}

/// Every class counts in the total: with nothing stored it is zero, and replacing what one class
/// holds changes it by the difference.
pub proof fn law_every_class_counts(stored: Seq<Seq<nat>>, i: int, next: Seq<nat>)
    requires
        stored.len() == 8,
        0 <= i < 8,
    ensures
        total_stored(no_blocks(), 8) == 0,
        total_stored(stored.update(i, next), 8) == total_stored(stored, 8) + next.len()
            - stored[i].len(),
        no_blocks().len() == 8,
        no_blocks()[i] == Seq::<nat>::empty(),
{
    reveal_with_fuel(total_stored, 9);
}

/// The view of a pool shows its fields, and of every stored block its capacity.
pub proof fn law_pool_view_shows_the_fields<A: Allocator>(pool: ZeroPool<A>, i: int)
    requires
        pool.wf(),
        0 <= i < 8,
    ensures
        pool@.id == pool.state.id,
        pool@.tls_cache_size == pool.state.tls_cache_size,
        pool@.min_buffer_size == pool.state.min_buffer_size,
        pool@.pinned_memory == pool.state.pinned_memory,
        pool@.batch_size == pool.state.batch_size,
        pool@.track_stats == pool.state.track_stats,
        pool@.counters == pool.state.counters,
        pool@.max_buffers == pool.state.table.classes@[i].limit(),
        pool@.shared.len() == 8,
        pool@.shared[i] == capacities(pool.state.table.classes@[i].blocks()),
        pool@.shared[i].len() <= pool@.max_buffers,
        pool.state.table.classes@[i].boundary() == class_boundary(i),
        forall|k: int|
            0 <= k < pool@.shared[i].len() ==> #[trigger] pool@.shared[i][k] >= class_boundary(i),
{
    crate::laws::law_pool_is_sound(pool);
    assert(pool.state.table.classes@[i].wf());
}

/// The view of a thread state shows its fields, and of every cached block its capacity.
pub proof fn law_thread_view_shows_the_fields(tls: TlsState, i: int)
    requires
        tls.wf(),
        0 <= i < 8,
    ensures
        tls@.pool_id == tls.pool_id,
        tls@.limit == tls.limit,
        tls@.caches.len() == 8,
        tls@.caches[i] == capacities(tls.caches[i]@),
        forall|k: int|
            0 <= k < tls@.caches[i].len() ==> #[trigger] tls@.caches[i][k] >= class_boundary(i),
        forall|k: int|
            0 <= k < tls.caches[i]@.len() ==> (#[trigger] tls.caches[i]@[k])@.len() == 0,
{
    crate::laws::law_thread_state_is_sound(tls);
    assert forall|k: int| 0 <= k < tls.caches[i]@.len() implies (
    #[trigger] tls.caches[i]@[k])@.len() == 0 by {
        assert(tls.caches[i]@[k].storable(class_boundary(i)));
    }
}

/// A pool starts empty, with all counters at zero, and with defaults that grow with the machine.
pub proof fn law_new_pool(id: u64, cpus: int, i: int)
    requires
        0 <= i < 8,
    ensures
        ({
            let p = default_pool(id, cpus);
            &&& p.id == id
            &&& p.shared.len() == 8
            &&& p.shared[i].len() == 0
            &&& p.min_buffer_size == 4096
            &&& !p.pinned_memory
            &&& !p.track_stats
            &&& p.counters == (Counters {
                gets: 0,
                tls_hits: 0,
                shared_hits: 0,
                allocations: 0,
                puts: 0,
                discards: 0,
                oversize: 0,
            })
            &&& cpus <= 2 ==> p.tls_cache_size == 2
            &&& 2 < cpus <= 4 ==> p.tls_cache_size == 4
            &&& 4 < cpus <= 8 ==> p.tls_cache_size == 6
            &&& 8 < cpus ==> p.tls_cache_size == 8
            &&& cpus <= 4 ==> p.batch_size == 2
            &&& 4 < cpus <= 8 ==> p.batch_size == 3
            &&& 8 < cpus ==> p.batch_size == 4
            &&& cpus < 16 ==> p.max_buffers == 32
            &&& 16 <= cpus < 32 ==> p.max_buffers == 64
            &&& 32 <= cpus < 64 ==> p.max_buffers == 96
            &&& 64 <= cpus ==> p.max_buffers == 128
        }),
{
}

/// A snapshot shows every counter, and of every class its boundary and how many blocks the shared
/// storage holds.
pub proof fn law_snapshot_shows_the_pool(stats: PoolStats, p: PoolView, i: int)
    requires
        stats_match(stats, p),
        0 <= i < 8,
    ensures
        stats.gets == p.counters.gets,
        stats.tls_hits == p.counters.tls_hits,
        stats.shared_hits == p.counters.shared_hits,
        stats.allocations == p.counters.allocations,
        stats.puts == p.counters.puts,
        stats.discards == p.counters.discards,
        stats.oversize == p.counters.oversize,
        stats.classes[i].boundary == class_boundary(i),
        stats.classes[i].buffered == p.shared[i].len(),
{
}

} // verus!
