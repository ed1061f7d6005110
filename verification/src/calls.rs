//! What callers see: laws over calls of the library's functions and their results.

use vstd::prelude::*;

use crate::allocator::Allocator;
use crate::block::{zeros, Block};
use crate::buf::{Buf, BufUninit};
use crate::buffer::PooledBuffer;
use crate::global::{
    caches_in, law_allocation_uses_its_own_class, law_caches_stay_within_the_limit,
    law_release_uses_its_own_class, AllocPlan, BlockLayout, DeallocPlan, Freelist,
    ZeroPoolGlobalAlloc,
};
use crate::laws::{
    law_invariants_are_kept_by_return, law_pool_is_sound, law_thread_state_is_sound,
};
use crate::metrics::{Counters, PoolStats};
use crate::model::{
    least_capacity, pool_after_alloc, pool_after_dealloc, tls_after_alloc, tls_after_dealloc,
    total_stored, PoolView,
};
use crate::operations::{
    counted, joins, keeps_configuration, kept_in, law_discarding_plain_return,
    law_discarding_return, law_miss, law_plain_return, law_return_to_the_thread,
    law_return_with_a_spill, law_shared_hit, law_thread_hit, lemma_serves, moved, now_caches,
    now_shares, own_cache, own_limit, request, returned, serves,
};
use crate::pool::{capacity_given, PoolIds, ZeroPool};
use crate::routing::{
    class_boundary, class_for_size, lemma_boundaries, lemma_class_for_capacity,
    lemma_class_for_size, route_capacity, route_size,
};
use crate::size_class::{ClassTable, SizeClass};
use crate::tls::{no_blocks, TlsState, TlsView};

verus! {

/// The number of buffers is that of all classes together, and a pool is empty exactly if it is
/// zero.
pub proof fn law_length_counts_all_classes<A: Allocator>(pool: ZeroPool<A>, n: usize, empty: bool)
    requires
        pool.wf(),
        call_ensures(ZeroPool::<A>::len, (&pool,), n),
        call_ensures(ZeroPool::<A>::is_empty, (&pool,), empty),
    ensures
        n == pool@.shared[0].len() + pool@.shared[1].len() + pool@.shared[2].len()
            + pool@.shared[3].len() + pool@.shared[4].len() + pool@.shared[5].len()
            + pool@.shared[6].len() + pool@.shared[7].len(),
        empty <==> n == 0,
{
    reveal_with_fuel(total_stored, 9);
    law_pool_is_sound(pool);
    if n == 0 {
        assert forall|k: int| 0 <= k < 8 implies #[trigger] pool@.shared[k] =~= Seq::<
            nat,
        >::empty() by {}
        assert(pool@.shared =~= no_blocks());
    }
}

/// Every configuration method sets what it is named after. Setting the depth of the thread caches
/// sets the batch size to half of it, and changing the limit of the shared classes empties them;
/// nothing else changes.
pub proof fn law_configuration<A: Allocator>(
    pool: ZeroPool<A>,
    n: usize,
    on: bool,
    least: ZeroPool<A>,
    depth: ZeroPool<A>,
    limit: ZeroPool<A>,
    pinned: ZeroPool<A>,
    batch: ZeroPool<A>,
    counting: ZeroPool<A>,
)
    requires
        pool.wf(),
        call_ensures(ZeroPool::<A>::min_buffer_size, (pool, n), least),
        call_ensures(ZeroPool::<A>::tls_cache_size, (pool, n), depth),
        call_ensures(ZeroPool::<A>::max_buffers_per_class, (pool, n), limit),
        call_ensures(ZeroPool::<A>::pinned_memory, (pool, on), pinned),
        call_ensures(ZeroPool::<A>::batch_size, (pool, n), batch),
        call_ensures(ZeroPool::<A>::track_stats, (pool, on), counting),
    ensures
        least@.min_buffer_size == n,
        least@.shared == pool@.shared && least@.batch_size == pool@.batch_size,
        depth@.tls_cache_size == n,
        n >= 4 ==> 2 * depth@.batch_size <= n < 2 * depth@.batch_size + 2,
        n < 4 ==> depth@.batch_size == 2,
        depth@.shared == pool@.shared && depth@.min_buffer_size == pool@.min_buffer_size,
        limit@.max_buffers == n,
        forall|k: int| 0 <= k < 8 ==> (#[trigger] limit@.shared[k]).len() == 0,
        limit@.tls_cache_size == pool@.tls_cache_size && limit@.batch_size == pool@.batch_size,
        pinned@.pinned_memory == on,
        pinned@.shared == pool@.shared && pinned@.track_stats == pool@.track_stats,
        batch@.batch_size == n,
        batch@.shared == pool@.shared && batch@.tls_cache_size == pool@.tls_cache_size,
        counting@.track_stats == on,
        counting@.shared == pool@.shared && counting@.pinned_memory == pool@.pinned_memory,
{
}

/// Routing a size finds the smallest class that holds it, or none above 64 MiB; routing a capacity
/// finds the largest class that it can serve, or none below 4 KiB.
pub proof fn law_routing(size: usize, class: Option<usize>, capacity: usize, home: Option<usize>)
    requires
        call_ensures(route_size, (size,), class),
        call_ensures(route_capacity, (capacity,), home),
    ensures
        class is Some <==> size <= 67108864,
        class matches Some(i) ==> serves(i as int, size as int),
        home is Some <==> capacity >= 4096,
        home matches Some(i) ==> joins(i as int, capacity as nat),
{
    lemma_boundaries();
    lemma_class_for_size(size as int);
    lemma_class_for_capacity(capacity as int);
    if let Some(i) = class {
        if i > 0 {
            assert(class_boundary(i - 1) < size);
        }
    }
    if let Some(i) = home {
        if i < 7 {
            assert(capacity < class_boundary(i + 1));
        }
    }
}

/// A table routes to the class with the boundary it found.
pub proof fn law_table_routes_to_its_classes(
    table: ClassTable,
    size: usize,
    class: Option<(usize, &SizeClass)>,
)
    requires
        table.wf(),
        call_ensures(ClassTable::route, (&table, size), class),
    ensures
        class is Some <==> size <= 67108864,
        class matches Some((i, c)) ==> serves(i as int, size as int) && c.boundary()
            == class_boundary(i as int),
{
    lemma_boundaries();
    lemma_class_for_size(size as int);
    if let Some((i, c)) = class {
        assert(table.classes@[i as int].wf());
        if i > 0 {
            assert(class_boundary(i - 1) < size);
        }
    }
}

/// Writing a whole buffer from a slice makes it read as the slice, in the same allocation.
pub proof fn law_writing_from_a_slice(uninit: BufUninit, data: &[u8], buf: Buf)
    requires
        uninit.wf(),
        call_ensures(BufUninit::write_from_slice, (uninit, data), buf),
        data@.len() == uninit@.len(),
    ensures
        buf@ == data@,
        buf.cap() == uninit.cap(),
        buf.hint() == uninit.hint(),
{
}

/// Hit ratios are thread hits, or all hits, out of all requests; there is none without a request.
pub proof fn law_hit_ratios(
    stats: PoolStats,
    thread: Option<(u64, u64)>,
    all: Option<(u64, u64)>,
)
    requires
        stats.tls_hits + stats.shared_hits <= u64::MAX,
        call_ensures(PoolStats::tls_hit_ratio, (&stats,), thread),
        call_ensures(PoolStats::hit_ratio, (&stats,), all),
    ensures
        thread is None <==> stats.gets == 0,
        all is None <==> stats.gets == 0,
        thread matches Some(r) ==> r.0 == stats.tls_hits && r.1 == stats.gets,
        all matches Some(r) ==> r.0 == stats.tls_hits + stats.shared_hits && r.1 == stats.gets,
{
}

/// A buffer of `size` bytes, all zero, with a capacity of at least the smallest class that holds
/// them.
pub open spec fn zeroed(size: usize, bytes: Seq<u8>, cap: nat) -> bool {
    &&& bytes.len() == size
    &&& forall|k: int| 0 <= k < size ==> #[trigger] bytes[k] == 0
    &&& cap >= size
    &&& size <= 67108864 ==> exists|i: int| #[trigger] serves(i, size as int) && cap
        >= class_boundary(i)
}

proof fn lemma_zeroed(size: usize, bytes: Seq<u8>, cap: nat)
    requires
        bytes == zeros(size as nat),
        cap >= least_capacity(size as int),
    ensures
        zeroed(size, bytes, cap),
{
    lemma_boundaries();
    lemma_class_for_size(size as int);
    if size <= 67108864 {
        let i = class_for_size(size as int)->Some_0;
        if i > 0 {
            assert(class_boundary(i - 1) < size);
        }
        assert(serves(i, size as int));
    }
}

/// Every buffer that a pool hands out has exactly the bytes asked for, all zero, and the capacity
/// of its class, whatever was in the memory before.
pub proof fn law_buffers_are_zeroed<A: Allocator>(size: usize)
    ensures
        forall|pool: &mut ZeroPool<A>, tls: &mut TlsState, buf: Buf| #[trigger]
            call_ensures(ZeroPool::<A>::allocate, (pool, tls, size), buf) ==> zeroed(
                size,
                buf@,
                buf.cap(),
            ),
        forall|pool: &mut ZeroPool<A>, tls: &mut TlsState, buf: BufUninit| #[trigger]
            call_ensures(ZeroPool::<A>::alloc_uninit, (pool, tls, size), buf) ==> zeroed(
                size,
                buf@,
                buf.cap(),
            ),
        forall|pool: &mut ZeroPool<A>, tls: &mut TlsState, buf: PooledBuffer| #[trigger]
            call_ensures(ZeroPool::<A>::get, (pool, tls, size), buf) ==> zeroed(
                size,
                buf@,
                buf.cap(),
            ),
{
    assert forall|pool: &mut ZeroPool<A>, tls: &mut TlsState, buf: Buf| #[trigger]
        call_ensures(ZeroPool::<A>::allocate, (pool, tls, size), buf) implies zeroed(
        size,
        buf@,
        buf.cap(),
    ) by {
        lemma_zeroed(size, buf@, buf.cap());
    }
    assert forall|pool: &mut ZeroPool<A>, tls: &mut TlsState, buf: BufUninit| #[trigger]
        call_ensures(ZeroPool::<A>::alloc_uninit, (pool, tls, size), buf) implies zeroed(
        size,
        buf@,
        buf.cap(),
    ) by {
        lemma_zeroed(size, buf@, buf.cap());
    }
    assert forall|pool: &mut ZeroPool<A>, tls: &mut TlsState, buf: PooledBuffer| #[trigger]
        call_ensures(ZeroPool::<A>::get, (pool, tls, size), buf) implies zeroed(
        size,
        buf@,
        buf.cap(),
    ) by {
        lemma_zeroed(size, buf@, buf.cap());
    }
}

/// A request moves the counter of requests and none of returns, and keeps the configuration; a
/// return moves the counter of returns and none of requests.
pub open spec fn counted_as_a_request(p: PoolView, after: PoolView) -> bool {
    &&& keeps_configuration(p, after)
    &&& counted(p.counters.gets, after.counters.gets, p.track_stats)
    &&& after.counters.puts == p.counters.puts
    &&& after.counters.discards == p.counters.discards
}

/// See [`counted_as_a_request`].
pub open spec fn counted_as_a_return(p: PoolView, after: PoolView) -> bool {
    &&& keeps_configuration(p, after)
    &&& counted(p.counters.puts, after.counters.puts, p.track_stats)
    &&& after.counters.gets == p.counters.gets
    &&& after.counters.tls_hits == p.counters.tls_hits
    &&& after.counters.shared_hits == p.counters.shared_hits
    &&& after.counters.allocations == p.counters.allocations
    &&& after.counters.oversize == p.counters.oversize
}

/// Every call counts as what it is.
pub proof fn law_calls_are_counted<A: Allocator>(size: usize)
    ensures
        forall|pool: &mut ZeroPool<A>, tls: &mut TlsState, buf: Buf| #[trigger]
            call_ensures(ZeroPool::<A>::allocate, (pool, tls, size), buf) ==> counted_as_a_request(
                pool@,
                final(pool)@,
            ),
        forall|pool: &mut ZeroPool<A>, tls: &mut TlsState, buf: PooledBuffer| #[trigger]
            call_ensures(ZeroPool::<A>::get, (pool, tls, size), buf) ==> counted_as_a_request(
                pool@,
                final(pool)@,
            ),
        forall|pool: &mut ZeroPool<A>, tls: &mut TlsState, buf: Buf| #[trigger]
            call_ensures(Buf::release::<A>, (buf, pool, tls), ()) ==> counted_as_a_return(
                pool@,
                final(pool)@,
            ),
        forall|pool: &mut ZeroPool<A>, tls: &mut TlsState, buf: PooledBuffer| #[trigger]
            call_ensures(PooledBuffer::release::<A>, (buf, pool, tls), ()) ==> counted_as_a_return(
                pool@,
                final(pool)@,
            ),
{
}

/// A buffer that is released is the next one that its thread is handed for any size of its class,
/// with the same capacity, as long as it is worth keeping and the thread's cache has a free place.
/// Both are then as they were before the release, and nothing was discarded or allocated.
pub proof fn law_released_buffer_is_allocated_next<A: Allocator>(
    before: ZeroPool<A>,
    thread: TlsState,
    buf: Buf,
    between: ZeroPool<A>,
    meanwhile: TlsState,
    size: usize,
    i: int,
)
    requires
        before.wf(),
        thread.wf(),
        serves(i, size as int),
        kept_in(before@, buf.cap(), buf.hint(), i),
        own_cache(before@, thread@, i).len() < own_limit(before@, thread@),
        exists|pool: &mut ZeroPool<A>, tls: &mut TlsState|
            {
                &&& #[trigger] call_ensures(Buf::release::<A>, (buf, pool, tls), ())
                &&& *pool == before
                &&& *tls == thread
                &&& *final(pool) == between
                &&& *final(tls) == meanwhile
            },
    ensures
        forall|pool: &mut ZeroPool<A>, tls: &mut TlsState, next: Buf|
            *pool == between && *tls == meanwhile && #[trigger] call_ensures(
                ZeroPool::<A>::allocate,
                (pool, tls, size),
                next,
            ) ==> {
                &&& next.cap() == buf.cap()
                &&& final(pool)@.shared[i] == before@.shared[i]
                &&& final(tls)@.caches[i] == own_cache(before@, thread@, i)
                &&& counted(
                    before@.counters.tls_hits,
                    final(pool)@.counters.tls_hits,
                    before@.track_stats,
                )
                &&& final(pool)@.counters.discards == before@.counters.discards
                &&& final(pool)@.counters.allocations == before@.counters.allocations
            },
{
    law_pool_is_sound(before);
    law_thread_state_is_sound(thread);
    let (p, t) = (before@, thread@);
    law_return_to_the_thread(p, t, buf.cap(), buf.hint(), i);
    law_invariants_are_kept_by_return(p, t, buf.cap(), buf.hint());
    law_thread_hit(between@, meanwhile@, size as int, i);
    let own = own_cache(p, t, i);
    assert(own.push(buf.cap()).take(own.len() as int) =~= own);
}

/// A class was filled up: as many blocks as asked for, or as many as the limit allows, stand behind
/// what it held, all of them large enough. No other class and no counter changed.
pub open spec fn warmed(p: PoolView, after: PoolView, count: usize, i: int) -> bool {
    let (old_class, new_class) = (p.shared[i], after.shared[i]);
    &&& old_class.len() <= new_class.len() <= p.max_buffers
    &&& new_class.len() == old_class.len() + count || (new_class.len() == p.max_buffers
        && old_class.len() + count > p.max_buffers)
    &&& forall|k: int| 0 <= k < old_class.len() ==> #[trigger] new_class[k] == old_class[k]
    &&& forall|k: int|
        old_class.len() <= k < new_class.len() ==> #[trigger] new_class[k] >= class_boundary(i)
    &&& forall|j: int| 0 <= j < 8 && j != i ==> #[trigger] after.shared[j] == p.shared[j]
    &&& after.counters == p.counters
    &&& keeps_configuration(p, after)
}

/// Warming fills the smallest class that holds the size, and nothing for a size above 64 MiB.
pub proof fn law_warming_fills_one_class<A: Allocator>(count: usize, size: usize, i: int)
    requires
        serves(i, size as int) || size > 67108864,
    ensures
        forall|pool: &mut ZeroPool<A>|
            pool.wf() && #[trigger] call_ensures(ZeroPool::<A>::warm, (pool, count, size), ())
                ==> if size > 67108864 {
                final(pool)@ == pool@
            } else {
                warmed(pool@, final(pool)@, count, i)
            },
{
    lemma_boundaries();
    lemma_class_for_size(size as int);
    assert forall|pool: &mut ZeroPool<A>|
        pool.wf() && #[trigger] call_ensures(ZeroPool::<A>::warm, (pool, count, size), ()) implies
        if size > 67108864 {
        final(pool)@ == pool@
    } else {
        warmed(pool@, final(pool)@, count, i)
    } by {
        if size <= 67108864 {
            law_pool_is_sound(*pool);
            lemma_serves(i, size as int);
            let (a, b) = (pool@.shared[i], final(pool)@.shared[i]);
            let added = b.skip(a.len() as int);
            assert(b == a + added);
            assert forall|k: int| a.len() <= k < b.len() implies #[trigger] b[k] >= class_boundary(
                i,
            ) by {
                assert(b[k] == added[k - a.len()]);
            }
        }
    }
}

/// Draining empties every shared class and leaves counters and configuration alone.
pub proof fn law_draining_empties_the_shared_storage<A: Allocator>()
    ensures
        forall|pool: &mut ZeroPool<A>| #[trigger]
            call_ensures(ZeroPool::<A>::drain, (pool,), ()) ==> {
                &&& final(pool)@.shared.len() == 8
                &&& forall|k: int| 0 <= k < 8 ==> (#[trigger] final(pool)@.shared[k]).len() == 0
                &&& final(pool)@.counters == pool@.counters
                &&& keeps_configuration(pool@, final(pool)@)
            },
{
}

/// A reset brings every counter to zero and leaves the rest alone.
pub proof fn law_reset_clears_the_counters<A: Allocator>()
    ensures
        forall|pool: &mut ZeroPool<A>| #[trigger]
            call_ensures(ZeroPool::<A>::reset_stats, (pool,), ()) ==> {
                &&& final(pool)@.counters == (Counters {
                    gets: 0,
                    tls_hits: 0,
                    shared_hits: 0,
                    allocations: 0,
                    puts: 0,
                    discards: 0,
                    oversize: 0,
                })
                &&& final(pool)@.shared == pool@.shared
                &&& keeps_configuration(pool@, final(pool)@)
            },
{
}

/// A class takes a block in exactly if it is below its limit, as the newest; it hands out the
/// oldest.
pub proof fn law_classes_are_first_in_first_out(block: Block)
    ensures
        forall|class: &mut SizeClass, result: Result<(), Block>| #[trigger]
            call_ensures(SizeClass::push, (class, block), result) ==> if class.blocks().len()
                == class.limit() {
                &&& result is Err
                &&& result->Err_0 == block
                &&& final(class).blocks() == class.blocks()
            } else {
                &&& result is Ok
                &&& final(class).blocks().len() == class.blocks().len() + 1
                &&& final(class).blocks()[class.blocks().len() as int] == block
                &&& forall|k: int|
                    0 <= k < class.blocks().len() ==> #[trigger] final(class).blocks()[k]
                        == class.blocks()[k]
            },
        forall|class: &mut SizeClass, first: Option<Block>| #[trigger]
            call_ensures(SizeClass::pop, (class,), first) ==> if class.blocks().len() == 0 {
                first is None && final(class).blocks().len() == 0
            } else {
                &&& first == Some(class.blocks()[0])
                &&& final(class).blocks().len() == class.blocks().len() - 1
                &&& forall|k: int|
                    0 <= k < final(class).blocks().len() ==> #[trigger] final(class).blocks()[k]
                        == class.blocks()[k + 1]
            },
{
}

/// Bytes with others appended: what was there stays, and the new ones follow.
pub open spec fn appended(before: Seq<u8>, after: Seq<u8>, data: Seq<u8>) -> bool {
    &&& after.len() == before.len() + data.len()
    &&& forall|k: int| 0 <= k < before.len() ==> #[trigger] after[k] == before[k]
    &&& forall|k: int|
        before.len() <= k < after.len() ==> #[trigger] after[k] == data[k - before.len()]
}

/// Writing appends all the bytes and says how many there were.
pub proof fn law_writing_appends(data: &[u8])
    ensures
        forall|buf: &mut Buf, n: usize| #[trigger]
            call_ensures(Buf::write, (buf, data), n) ==> n == data@.len() && appended(
                buf@,
                final(buf)@,
                data@,
            ),
        forall|buf: &mut Buf| #[trigger]
            call_ensures(Buf::write_all, (buf, data), ()) ==> appended(buf@, final(buf)@, data@),
        forall|buf: &mut PooledBuffer, n: usize| #[trigger]
            call_ensures(PooledBuffer::write, (buf, data), n) ==> n == data@.len() && appended(
                buf@,
                final(buf)@,
                data@,
            ),
        forall|buf: &mut PooledBuffer| #[trigger]
            call_ensures(PooledBuffer::write_all, (buf, data), ()) ==> appended(
                buf@,
                final(buf)@,
                data@,
            ),
{
}

/// Identities count up from one.
pub proof fn law_identities_count_up(start: PoolIds)
    ensures
        call_ensures(PoolIds::new, (), start) ==> start.upcoming() == 1,
        forall|ids: &mut PoolIds, id: u64| #[trigger]
            call_ensures(PoolIds::issue, (ids,), id) ==> {
                &&& id == ids.upcoming()
                &&& id < u64::MAX ==> final(ids).upcoming() == id + 1
            },
{
}

/// A free list below its limit takes a block in, a full one does not; the block that came last goes
/// first.
pub proof fn law_free_lists_are_last_in_first_out(address: usize)
    ensures
        forall|list: &mut Freelist, cached: bool| #[trigger]
            call_ensures(Freelist::push, (list, address), cached) ==> {
                &&& cached <==> list.addresses().len() < list.limit()
                &&& !cached ==> final(list).addresses() == list.addresses()
                &&& cached ==> final(list).addresses() == list.addresses().push(address)
            },
        forall|list: &mut Freelist, popped: Option<usize>| #[trigger]
            call_ensures(Freelist::pop, (list,), popped) ==> {
                &&& list.addresses().len() == 0 ==> popped is None && final(list).addresses()
                    == list.addresses()
                &&& list.addresses().len() > 0 ==> {
                    &&& popped == Some(list.addresses()[list.addresses().len() - 1])
                    &&& final(list).addresses() == list.addresses().take(
                        list.addresses().len() - 1,
                    )
                }
            },
{
}

/// A cached block serves the next allocation of its own class, and no other: with nothing cached in
/// its own class, an allocation gets memory of its class boundary from the system, and no cache is
/// touched.
pub proof fn law_allocations_stay_in_their_class(layout: BlockLayout, i: int)
    requires
        caches_in(layout, i),
    ensures
        forall|global: &mut ZeroPoolGlobalAlloc, plan: AllocPlan|
            global.wf() && #[trigger] call_ensures(
                ZeroPoolGlobalAlloc::plan_alloc,
                (global, layout),
                plan,
            ) ==> if global@[i].len() == 0 {
                &&& plan matches AllocPlan::System(b) && b.size == class_boundary(i)
                &&& final(global)@ == global@
            } else {
                &&& plan == AllocPlan::Cached(global@[i][global@[i].len() - 1])
                &&& final(global)@[i].len() == global@[i].len() - 1
                &&& forall|j: int|
                    0 <= j < 8 && j != i ==> #[trigger] final(global)@[j] == global@[j]
            },
{
    assert forall|global: &mut ZeroPoolGlobalAlloc, plan: AllocPlan|
        global.wf() && #[trigger] call_ensures(
            ZeroPoolGlobalAlloc::plan_alloc,
            (global, layout),
            plan,
        ) implies if global@[i].len() == 0 {
        &&& plan matches AllocPlan::System(b) && b.size == class_boundary(i)
        &&& final(global)@ == global@
    } else {
        &&& plan == AllocPlan::Cached(global@[i][global@[i].len() - 1])
        &&& final(global)@[i].len() == global@[i].len() - 1
        &&& forall|j: int| 0 <= j < 8 && j != i ==> #[trigger] final(global)@[j] == global@[j]
    } by {
        law_caches_stay_within_the_limit(*global, i);
        law_allocation_uses_its_own_class(global@, layout, i);
    }
}

/// A freed block is cached in its own class and no other, unless that is full.
pub proof fn law_releases_stay_in_their_class(address: usize, layout: BlockLayout, i: int)
    requires
        caches_in(layout, i),
    ensures
        forall|global: &mut ZeroPoolGlobalAlloc, plan: DeallocPlan|
            global.wf() && #[trigger] call_ensures(
                ZeroPoolGlobalAlloc::plan_dealloc,
                (global, address, layout),
                plan,
            ) ==> if global@[i].len() < global.limit() {
                &&& plan is Cached
                &&& final(global)@[i] == global@[i].push(address)
                &&& forall|j: int|
                    0 <= j < 8 && j != i ==> #[trigger] final(global)@[j] == global@[j]
            } else {
                &&& plan matches DeallocPlan::System(b) && b.size == class_boundary(i)
                &&& final(global)@ == global@
            },
{
    assert forall|global: &mut ZeroPoolGlobalAlloc, plan: DeallocPlan|
        global.wf() && #[trigger] call_ensures(
            ZeroPoolGlobalAlloc::plan_dealloc,
            (global, address, layout),
            plan,
        ) implies if global@[i].len() < global.limit() {
        &&& plan is Cached
        &&& final(global)@[i] == global@[i].push(address)
        &&& forall|j: int| 0 <= j < 8 && j != i ==> #[trigger] final(global)@[j] == global@[j]
    } else {
        &&& plan matches DeallocPlan::System(b) && b.size == class_boundary(i)
        &&& final(global)@ == global@
    } by {
        law_caches_stay_within_the_limit(*global, i);
        law_release_uses_its_own_class(global@, global.limit(), address, layout, i);
    }
}

/// A buffer of class `i` came back: it goes on top of the thread's cache as long as that is below
/// its limit, and the shared storage stays as it is. A cache at its limit that holds a batch hands
/// one to the shared class first, where that has room for it. The buffer is counted as returned and
/// not as discarded.
pub open spec fn came_back(
    p: PoolView,
    t: TlsView,
    after: PoolView,
    thread: TlsView,
    cap: nat,
    i: int,
) -> bool {
    let cache = own_cache(p, t, i);
    &&& moved(p, after, returned(false))
    &&& cache.len() < own_limit(p, t) ==> {
        &&& now_caches(p, t, thread, i, cache.push(cap))
        &&& now_shares(p, after, i, p.shared[i])
    }
    &&& cache.len() == own_limit(p, t) && 0 < p.batch_size <= cache.len() && p.shared[i].len()
        + p.batch_size <= p.max_buffers ==> {
        &&& now_caches(p, t, thread, i, cache.take(cache.len() - p.batch_size).push(cap))
        &&& after.shared[i].len() == p.shared[i].len() + p.batch_size
        &&& forall|k: int|
            0 <= k < p.batch_size ==> #[trigger] after.shared[i][p.shared[i].len() + k]
                == cache[cache.len() - 1 - k]
    }
}

/// A buffer was refused: neither the thread nor the shared storage keeps it, and it is counted as
/// returned and as discarded.
pub open spec fn refused(p: PoolView, t: TlsView, after: PoolView, thread: TlsView) -> bool {
    &&& thread == t
    &&& after.shared == p.shared
    &&& moved(p, after, returned(true))
}

proof fn lemma_came_back(p: PoolView, t: TlsView, cap: nat, hint: u8, i: int)
    requires
        p.wf(),
        t.wf(),
        kept_in(p, cap, hint, i),
    ensures
        came_back(
            p,
            t,
            pool_after_dealloc(p, t, cap, hint),
            tls_after_dealloc(p, t, cap, hint),
            cap,
            i,
        ),
{
    let cache = own_cache(p, t, i);
    if cache.len() < own_limit(p, t) {
        law_return_to_the_thread(p, t, cap, hint, i);
    } else {
        let n: int = if p.batch_size <= cache.len() {
            p.batch_size as int
        } else {
            cache.len() as int
        };
        law_return_with_a_spill(p, t, cap, hint, i, n);
    }
}

/// Every way to give a buffer back: one of class `i` is kept there and not counted as discarded,
/// and one that bypassed the classes or is too small to keep is refused and counted as discarded.
pub proof fn law_returned_buffers_are_kept_or_discarded<A: Allocator>(i: int)
    ensures
        forall|pool: &mut ZeroPool<A>, tls: &mut TlsState, buffer: Block, hint: u8|
            pool.wf() && tls.wf() && kept_in(pool@, buffer.cap(), hint, i)
                && #[trigger] call_ensures(ZeroPool::<A>::dealloc, (pool, tls, buffer, hint), ())
                ==> came_back(
                pool@,
                tls@,
                final(pool)@,
                final(tls)@,
                buffer.cap(),
                i,
            ),
        forall|pool: &mut ZeroPool<A>, tls: &mut TlsState, buffer: Block, hint: u8|
            pool.wf() && tls.wf() && (hint == 255 || buffer.cap() < pool@.min_buffer_size)
                && #[trigger] call_ensures(ZeroPool::<A>::dealloc, (pool, tls, buffer, hint), ())
                ==> refused(
                pool@,
                tls@,
                final(pool)@,
                final(tls)@,
            ),
        forall|pool: &mut ZeroPool<A>, tls: &mut TlsState, buf: Buf|
            pool.wf() && tls.wf() && kept_in(pool@, buf.cap(), buf.hint(), i)
                && #[trigger] call_ensures(Buf::release::<A>, (buf, pool, tls), ()) ==> came_back(
                pool@,
                tls@,
                final(pool)@,
                final(tls)@,
                buf.cap(),
                i,
            ),
        forall|pool: &mut ZeroPool<A>, tls: &mut TlsState, buf: Buf|
            pool.wf() && tls.wf() && (buf.hint() == 255 || buf.cap() < pool@.min_buffer_size)
                && #[trigger] call_ensures(Buf::release::<A>, (buf, pool, tls), ()) ==> refused(
                pool@,
                tls@,
                final(pool)@,
                final(tls)@,
            ),
        forall|pool: &mut ZeroPool<A>, tls: &mut TlsState, buf: BufUninit|
            pool.wf() && tls.wf() && kept_in(pool@, buf.cap(), buf.hint(), i)
                && #[trigger] call_ensures(BufUninit::release::<A>, (buf, pool, tls), ())
                ==> came_back(
                pool@,
                tls@,
                final(pool)@,
                final(tls)@,
                buf.cap(),
                i,
            ),
        forall|pool: &mut ZeroPool<A>, tls: &mut TlsState, buf: BufUninit|
            pool.wf() && tls.wf() && (buf.hint() == 255 || buf.cap() < pool@.min_buffer_size)
                && #[trigger] call_ensures(BufUninit::release::<A>, (buf, pool, tls), ())
                ==> refused(
                pool@,
                tls@,
                final(pool)@,
                final(tls)@,
            ),
{
    assert forall|pool: &mut ZeroPool<A>, tls: &mut TlsState, buffer: Block, hint: u8|
        pool.wf() && tls.wf() && kept_in(pool@, buffer.cap(), hint, i)
            && #[trigger] call_ensures(ZeroPool::<A>::dealloc, (pool, tls, buffer, hint), ())
            implies came_back(
            pool@,
            tls@,
            final(pool)@,
            final(tls)@,
            buffer.cap(),
            i,
        ) by {
        law_pool_is_sound(*pool);
        law_thread_state_is_sound(*tls);
        lemma_came_back(pool@, tls@, buffer.cap(), hint, i);
    }
    assert forall|pool: &mut ZeroPool<A>, tls: &mut TlsState, buffer: Block, hint: u8|
        pool.wf() && tls.wf() && (hint == 255 || buffer.cap() < pool@.min_buffer_size)
            && #[trigger] call_ensures(ZeroPool::<A>::dealloc, (pool, tls, buffer, hint), ())
            implies refused(
            pool@,
            tls@,
            final(pool)@,
            final(tls)@,
        ) by {
        law_pool_is_sound(*pool);
        law_thread_state_is_sound(*tls);
        law_discarding_return(pool@, tls@, buffer.cap(), hint);
    }
    assert forall|pool: &mut ZeroPool<A>, tls: &mut TlsState, buf: Buf|
        pool.wf() && tls.wf() && kept_in(pool@, buf.cap(), buf.hint(), i)
            && #[trigger] call_ensures(Buf::release::<A>, (buf, pool, tls), ()) implies came_back(
            pool@,
            tls@,
            final(pool)@,
            final(tls)@,
            buf.cap(),
            i,
        ) by {
        law_pool_is_sound(*pool);
        law_thread_state_is_sound(*tls);
        lemma_came_back(pool@, tls@, buf.cap(), buf.hint(), i);
    }
    assert forall|pool: &mut ZeroPool<A>, tls: &mut TlsState, buf: Buf|
        pool.wf() && tls.wf() && (buf.hint() == 255 || buf.cap() < pool@.min_buffer_size)
            && #[trigger] call_ensures(Buf::release::<A>, (buf, pool, tls), ()) implies refused(
            pool@,
            tls@,
            final(pool)@,
            final(tls)@,
        ) by {
        law_pool_is_sound(*pool);
        law_thread_state_is_sound(*tls);
        law_discarding_return(pool@, tls@, buf.cap(), buf.hint());
    }
    assert forall|pool: &mut ZeroPool<A>, tls: &mut TlsState, buf: BufUninit|
        pool.wf() && tls.wf() && kept_in(pool@, buf.cap(), buf.hint(), i)
            && #[trigger] call_ensures(BufUninit::release::<A>, (buf, pool, tls), ())
            implies came_back(
            pool@,
            tls@,
            final(pool)@,
            final(tls)@,
            buf.cap(),
            i,
        ) by {
        law_pool_is_sound(*pool);
        law_thread_state_is_sound(*tls);
        lemma_came_back(pool@, tls@, buf.cap(), buf.hint(), i);
    }
    assert forall|pool: &mut ZeroPool<A>, tls: &mut TlsState, buf: BufUninit|
        pool.wf() && tls.wf() && (buf.hint() == 255 || buf.cap() < pool@.min_buffer_size)
            && #[trigger] call_ensures(BufUninit::release::<A>, (buf, pool, tls), ())
            implies refused(
            pool@,
            tls@,
            final(pool)@,
            final(tls)@,
        ) by {
        law_pool_is_sound(*pool);
        law_thread_state_is_sound(*tls);
        law_discarding_return(pool@, tls@, buf.cap(), buf.hint());
    }
}

/// A buffer without a class of its own is kept in the largest class `i` that it can serve and not
/// counted as discarded; one that is too small to keep or larger than 64 MiB is refused and counted
/// as discarded.
pub proof fn law_plain_buffers_are_kept_or_discarded<A: Allocator>(i: int)
    ensures
        forall|pool: &mut ZeroPool<A>, tls: &mut TlsState, buffer: Block|
            pool.wf() && tls.wf()
                && pool@.min_buffer_size <= buffer.cap() <= 67108864 && joins(i, buffer.cap())
                && #[trigger] call_ensures(ZeroPool::<A>::put, (pool, tls, buffer), ())
                ==> came_back(
                pool@,
                tls@,
                final(pool)@,
                final(tls)@,
                buffer.cap(),
                i,
            ),
        forall|pool: &mut ZeroPool<A>, tls: &mut TlsState, buffer: Block|
            pool.wf() && tls.wf()
                && (buffer.cap() < pool@.min_buffer_size || buffer.cap() > 67108864)
                && #[trigger] call_ensures(ZeroPool::<A>::put, (pool, tls, buffer), ()) ==> refused(
                pool@,
                tls@,
                final(pool)@,
                final(tls)@,
            ),
        forall|pool: &mut ZeroPool<A>, tls: &mut TlsState, buf: PooledBuffer|
            pool.wf() && tls.wf()
                && pool@.min_buffer_size <= buf.cap() <= 67108864 && joins(i, buf.cap())
                && #[trigger] call_ensures(PooledBuffer::release::<A>, (buf, pool, tls), ())
                ==> came_back(
                pool@,
                tls@,
                final(pool)@,
                final(tls)@,
                buf.cap(),
                i,
            ),
        forall|pool: &mut ZeroPool<A>, tls: &mut TlsState, buf: PooledBuffer|
            pool.wf() && tls.wf() && (buf.cap() < pool@.min_buffer_size || buf.cap() > 67108864)
                && #[trigger] call_ensures(PooledBuffer::release::<A>, (buf, pool, tls), ())
                ==> refused(
                pool@,
                tls@,
                final(pool)@,
                final(tls)@,
            ),
{
    assert forall|pool: &mut ZeroPool<A>, tls: &mut TlsState, buffer: Block|
        pool.wf() && tls.wf()
            && pool@.min_buffer_size <= buffer.cap() <= 67108864 && joins(i, buffer.cap())
            && #[trigger] call_ensures(ZeroPool::<A>::put, (pool, tls, buffer), ())
            implies came_back(
            pool@,
            tls@,
            final(pool)@,
            final(tls)@,
            buffer.cap(),
            i,
        ) by {
        law_pool_is_sound(*pool);
        law_thread_state_is_sound(*tls);
        law_plain_return(pool@, tls@, buffer.cap(), i);
        lemma_came_back(pool@, tls@, buffer.cap(), i as u8, i);
    }
    assert forall|pool: &mut ZeroPool<A>, tls: &mut TlsState, buffer: Block|
        pool.wf() && tls.wf() && (buffer.cap() < pool@.min_buffer_size || buffer.cap() > 67108864)
            && #[trigger] call_ensures(ZeroPool::<A>::put, (pool, tls, buffer), ()) implies refused(
            pool@,
            tls@,
            final(pool)@,
            final(tls)@,
        ) by {
        law_pool_is_sound(*pool);
        law_thread_state_is_sound(*tls);
        law_discarding_plain_return(pool@, tls@, buffer.cap());
    }
    assert forall|pool: &mut ZeroPool<A>, tls: &mut TlsState, buf: PooledBuffer|
        pool.wf() && tls.wf()
            && pool@.min_buffer_size <= buf.cap() <= 67108864 && joins(i, buf.cap())
            && #[trigger] call_ensures(PooledBuffer::release::<A>, (buf, pool, tls), ())
            implies came_back(
            pool@,
            tls@,
            final(pool)@,
            final(tls)@,
            buf.cap(),
            i,
        ) by {
        law_pool_is_sound(*pool);
        law_thread_state_is_sound(*tls);
        law_plain_return(pool@, tls@, buf.cap(), i);
        lemma_came_back(pool@, tls@, buf.cap(), i as u8, i);
    }
    assert forall|pool: &mut ZeroPool<A>, tls: &mut TlsState, buf: PooledBuffer|
        pool.wf() && tls.wf() && (buf.cap() < pool@.min_buffer_size || buf.cap() > 67108864)
            && #[trigger] call_ensures(PooledBuffer::release::<A>, (buf, pool, tls), ())
            implies refused(
            pool@,
            tls@,
            final(pool)@,
            final(tls)@,
        ) by {
        law_pool_is_sound(*pool);
        law_thread_state_is_sound(*tls);
        law_discarding_plain_return(pool@, tls@, buf.cap());
    }
}

/// A request of class `i` was answered with a buffer of the given capacity. If the thread caches
/// blocks of the class, it is the newest of these. If not, and the shared class holds a batch, one
/// batch leaves that, the buffer is the newest of it, and the thread caches the rest. If neither
/// has any, the allocator was asked.
pub open spec fn answered_request(
    p: PoolView,
    t: TlsView,
    after: PoolView,
    thread: TlsView,
    cap: nat,
    i: int,
) -> bool {
    let cache = own_cache(p, t, i);
    let shared = p.shared[i];
    &&& cap >= class_boundary(i)
    &&& cache.len() > 0 ==> {
        &&& cap == cache[cache.len() - 1]
        &&& now_caches(p, t, thread, i, cache.take(cache.len() - 1))
        &&& now_shares(p, after, i, shared)
        &&& moved(p, after, request(true, false, false, false))
    }
    &&& cache.len() == 0 && 0 < p.batch_size <= shared.len() ==> {
        &&& cap == shared[p.batch_size - 1]
        &&& now_caches(p, t, thread, i, shared.take(p.batch_size - 1))
        &&& now_shares(p, after, i, shared.skip(p.batch_size as int))
        &&& moved(p, after, request(false, true, false, false))
    }
    &&& cache.len() == 0 && 0 < shared.len() < p.batch_size ==> {
        &&& cap == shared[shared.len() - 1]
        &&& now_caches(p, t, thread, i, shared.take(shared.len() - 1))
        &&& now_shares(p, after, i, Seq::empty())
        &&& moved(p, after, request(false, true, false, false))
    }
    &&& cache.len() == 0 && (p.batch_size == 0 || shared.len() == 0) ==> {
        &&& now_caches(p, t, thread, i, Seq::empty())
        &&& now_shares(p, after, i, shared)
        &&& moved(p, after, request(false, false, true, false))
    }
}

proof fn lemma_answered_request<A: Allocator>(
    allocator: A,
    p: PoolView,
    t: TlsView,
    size: int,
    cap: nat,
    i: int,
)
    requires
        p.wf(),
        t.wf(),
        serves(i, size),
        capacity_given(allocator, p, t, size, cap),
    ensures
        answered_request(
            p,
            t,
            pool_after_alloc(p, t, size),
            tls_after_alloc(p, t, size),
            cap,
            i,
        ),
{
    lemma_boundaries();
    lemma_serves(i, size);
    let cache = own_cache(p, t, i);
    let shared = p.shared[i];
    if cache.len() > 0 {
        law_thread_hit(p, t, size, i);
        assert(cache == t.caches[i]);
    } else if p.batch_size == 0 || shared.len() == 0 {
        law_miss(p, t, size, i);
    } else if p.batch_size <= shared.len() {
        law_shared_hit(p, t, size, i, p.batch_size as int);
    } else {
        law_shared_hit(p, t, size, i, shared.len() as int);
        assert(shared.skip(shared.len() as int) =~= Seq::empty());
    }
}

/// Every way to ask for a buffer serves it from the class `i` of its size: from the thread's cache,
/// else from the shared storage, else from the allocator.
pub proof fn law_requests_are_answered_in_order<A: Allocator>(size: usize, i: int)
    ensures
        forall|pool: &mut ZeroPool<A>, tls: &mut TlsState, buf: Buf|
            pool.wf() && tls.wf() && serves(i, size as int)
                && #[trigger] call_ensures(ZeroPool::<A>::allocate, (pool, tls, size), buf)
                ==> answered_request(
                pool@,
                tls@,
                final(pool)@,
                final(tls)@,
                buf.cap(),
                i,
            ),
        forall|pool: &mut ZeroPool<A>, tls: &mut TlsState, buf: BufUninit|
            pool.wf() && tls.wf() && serves(i, size as int)
                && #[trigger] call_ensures(ZeroPool::<A>::alloc_uninit, (pool, tls, size), buf)
                ==> answered_request(
                pool@,
                tls@,
                final(pool)@,
                final(tls)@,
                buf.cap(),
                i,
            ),
        forall|pool: &mut ZeroPool<A>, tls: &mut TlsState, buf: PooledBuffer|
            pool.wf() && tls.wf() && serves(i, size as int)
                && #[trigger] call_ensures(ZeroPool::<A>::get, (pool, tls, size), buf)
                ==> answered_request(
                pool@,
                tls@,
                final(pool)@,
                final(tls)@,
                buf.cap(),
                i,
            ),
{
    assert forall|pool: &mut ZeroPool<A>, tls: &mut TlsState, buf: Buf|
        pool.wf() && tls.wf() && serves(i, size as int)
            && #[trigger] call_ensures(ZeroPool::<A>::allocate, (pool, tls, size), buf)
            implies answered_request(
            pool@,
            tls@,
            final(pool)@,
            final(tls)@,
            buf.cap(),
            i,
        ) by {
        law_pool_is_sound(*pool);
        law_thread_state_is_sound(*tls);
        lemma_answered_request(
            pool.state.allocator,
            pool@,
            tls@,
            size as int,
            buf.cap(),
            i,
        );
    }
    assert forall|pool: &mut ZeroPool<A>, tls: &mut TlsState, buf: BufUninit|
        pool.wf() && tls.wf() && serves(i, size as int)
            && #[trigger] call_ensures(ZeroPool::<A>::alloc_uninit, (pool, tls, size), buf)
            implies answered_request(
            pool@,
            tls@,
            final(pool)@,
            final(tls)@,
            buf.cap(),
            i,
        ) by {
        law_pool_is_sound(*pool);
        law_thread_state_is_sound(*tls);
        lemma_answered_request(
            pool.state.allocator,
            pool@,
            tls@,
            size as int,
            buf.cap(),
            i,
        );
    }
    assert forall|pool: &mut ZeroPool<A>, tls: &mut TlsState, buf: PooledBuffer|
        pool.wf() && tls.wf() && serves(i, size as int)
            && #[trigger] call_ensures(ZeroPool::<A>::get, (pool, tls, size), buf)
            implies answered_request(
            pool@,
            tls@,
            final(pool)@,
            final(tls)@,
            buf.cap(),
            i,
        ) by {
        law_pool_is_sound(*pool);
        law_thread_state_is_sound(*tls);
        lemma_answered_request(
            pool.state.allocator,
            pool@,
            tls@,
            size as int,
            buf.cap(),
            i,
        );
    }
}

} // verus!
