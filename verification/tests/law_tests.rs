use zeropool::routing::{route_capacity, route_size, CLASS_SIZES, NUM_CLASSES};
use zeropool::{PoolIds, TlsState, ZeroPool};

fn tracked_pool() -> ZeroPool {
    ZeroPool::new(1, 4).min_buffer_size(0).tls_cache_size(2).batch_size(2).track_stats(true)
}

#[test]
fn a_request_gets_at_least_its_class() {
    let mut pool = tracked_pool();
    let mut tls = TlsState::new();
    for size in [0, 1, 4096, 4097, 70000, 64 * 1024 * 1024, 64 * 1024 * 1024 + 1] {
        let buf = pool.allocate(&mut tls, size);
        assert_eq!(buf.len(), size);
        assert!(buf.capacity() >= size);
        if let Some(class) = route_size(size) {
            assert!(buf.capacity() >= CLASS_SIZES[class]);
        }
        buf.release(&mut pool, &mut tls);
    }
}

#[test]
fn the_buffer_returned_last_is_reused_first() {
    let mut pool = tracked_pool();
    let mut tls = TlsState::new();
    let a = pool.allocate(&mut tls, 4096);
    let mut b = pool.allocate(&mut tls, 4096);
    b.write_all(&[1; 8192]);
    let larger = b.capacity();
    a.release(&mut pool, &mut tls);
    b.release(&mut pool, &mut tls);
    assert_eq!(pool.allocate(&mut tls, 10).capacity(), larger);
    assert_eq!(pool.stats().tls_hits, 1);
}

#[test]
fn a_batch_larger_than_the_cache_still_gives_the_buffer_back() {
    let mut pool = tracked_pool().tls_cache_size(1).batch_size(8);
    let mut tls = TlsState::new();
    pool.warm(6, 4096);
    let mut buf = pool.allocate(&mut tls, 4096);
    assert_eq!(tls.caches[0].len(), 5);
    buf.write_all(&[0; 9000]);
    let cap = buf.capacity();
    buf.release(&mut pool, &mut tls);
    assert_eq!(tls.caches[0].len(), 1);
    assert_eq!(pool.len(), 5);
    assert_eq!(pool.allocate(&mut tls, 4096).capacity(), cap);
}

#[test]
fn return_and_request_leave_everything_as_it_was() {
    let mut pool = tracked_pool();
    let mut tls = TlsState::new();
    let a = pool.allocate(&mut tls, 4096);
    let b = pool.allocate(&mut tls, 4096);
    b.release(&mut pool, &mut tls);
    let (shared, cached) = (pool.len(), tls.caches[0].len());
    a.release(&mut pool, &mut tls);
    let _a = pool.allocate(&mut tls, 4096);
    assert_eq!((pool.len(), tls.caches[0].len()), (shared, cached));
}

#[test]
fn a_return_keeps_the_thread_cache_within_its_limit() {
    let mut pool = tracked_pool();
    let mut tls = TlsState::new();
    let mut buffers = Vec::new();
    for _ in 0..9 {
        buffers.push(pool.allocate(&mut tls, 4096));
    }
    for buf in buffers {
        buf.release(&mut pool, &mut tls);
        assert!(tls.caches[0].len() <= 2);
    }
    assert_eq!(pool.len() + tls.caches[0].len(), 9);
}

#[test]
fn pools_do_not_see_each_others_buffers() {
    let mut ids = PoolIds::new();
    let mut first = ZeroPool::new(ids.issue(), 4).min_buffer_size(0).track_stats(true);
    let mut second = ZeroPool::new(ids.issue(), 4).min_buffer_size(0).track_stats(true);
    let mut tls = TlsState::new();
    let buf = first.allocate(&mut tls, 4096);
    buf.release(&mut first, &mut tls);
    let _buf = second.allocate(&mut tls, 4096);
    assert_eq!(second.stats().tls_hits, 0);
    assert_eq!(second.stats().allocations, 1);
    let _buf = first.allocate(&mut tls, 4096);
    assert_eq!(first.stats().tls_hits, 0);
}

#[test]
fn threads_do_not_see_each_others_caches() {
    let mut pool = tracked_pool();
    let mut mine = TlsState::new();
    let mut yours = TlsState::new();
    let buf = pool.allocate(&mut mine, 4096);
    buf.release(&mut pool, &mut mine);
    let _buf = pool.allocate(&mut yours, 4096);
    assert_eq!(pool.stats().allocations, 2);
}

#[test]
fn a_recycled_request_takes_one_block() {
    let mut pool = tracked_pool();
    let mut tls = TlsState::new();
    pool.warm(5, 4096);
    let _a = pool.allocate(&mut tls, 4096);
    assert_eq!(pool.len() + tls.caches[0].len(), 4);
    let _b = pool.allocate(&mut tls, 4096);
    assert_eq!(pool.len() + tls.caches[0].len(), 3);
}

#[test]
fn shared_storage_is_bounded() {
    let mut pool = tracked_pool().max_buffers_per_class(3);
    for &size in CLASS_SIZES.iter().take(4) {
        pool.warm(10, size);
    }
    assert_eq!(pool.len(), 12);
    assert!(pool.len() <= 3 * NUM_CLASSES);
}

#[test]
fn small_buffers_are_discarded() {
    let mut pool = tracked_pool().min_buffer_size(1024 * 1024);
    let mut tls = TlsState::new();
    let buf = pool.allocate(&mut tls, 100);
    buf.release(&mut pool, &mut tls);
    assert!(pool.is_empty());
    assert_eq!(tls.caches[0].len(), 0);
    assert_eq!(pool.stats().discards, 1);
}

#[test]
fn oversize_requests_bypass_the_pool() {
    let mut pool = tracked_pool();
    let mut tls = TlsState::new();
    let size = 64 * 1024 * 1024 + 1;
    let buf = pool.allocate(&mut tls, size);
    buf.release(&mut pool, &mut tls);
    let s = pool.stats();
    assert_eq!((s.oversize, s.allocations, s.discards), (1, 1, 1));
    assert!(pool.is_empty());
    assert_eq!(tls.caches[7].len(), 0);
}

#[test]
fn a_drained_pool_allocates_afresh() {
    let mut pool = tracked_pool();
    pool.warm(4, 4096);
    pool.drain();
    assert!(pool.is_empty());
    let mut tls = TlsState::new();
    let _buf = pool.allocate(&mut tls, 4096);
    assert_eq!(pool.stats().allocations, 1);
}

#[test]
fn counters_balance() {
    let mut pool = tracked_pool();
    let mut tls = TlsState::new();
    pool.warm(2, 16384);
    for size in [10, 20000, 5000, 10, 70 * 1024 * 1024, 5000] {
        let buf = pool.allocate(&mut tls, size);
        buf.release(&mut pool, &mut tls);
    }
    let s = pool.stats();
    assert_eq!(s.gets, 6);
    assert_eq!(s.gets, s.tls_hits + s.shared_hits + s.allocations);
    assert!(s.oversize <= s.allocations);
    assert!(s.discards <= s.puts);
    let (hits, gets) = s.hit_ratio().unwrap();
    assert!(hits <= gets);
}

#[test]
fn counters_rest_unless_tracked() {
    let mut pool = tracked_pool().track_stats(false);
    let mut tls = TlsState::new();
    let buf = pool.allocate(&mut tls, 4096);
    buf.release(&mut pool, &mut tls);
    let s = pool.stats();
    assert_eq!((s.gets, s.puts, s.allocations), (0, 0, 0));
}

#[test]
fn the_configuration_survives_use() {
    let mut pool = tracked_pool();
    let mut tls = TlsState::new();
    let buf = pool.allocate(&mut tls, 4096);
    buf.release(&mut pool, &mut tls);
    assert_eq!(pool.state.id, 1);
    assert_eq!(pool.state.tls_cache_size, 2);
    assert_eq!(pool.state.batch_size, 2);
    assert_eq!(pool.state.min_buffer_size, 0);
    assert!(pool.state.track_stats);
}

#[test]
fn stored_allocations_fit_the_requests_of_their_class() {
    for capacity in [4096, 5000, 16384, 100000, 1 << 30] {
        let class = route_capacity(capacity).unwrap();
        for size in [1, 4096, 4097, 65536] {
            if route_size(size) == Some(class) {
                assert!(capacity >= size);
            }
        }
    }
}

#[test]
fn rounding_wastes_at_most_three_quarters() {
    for size in [4097, 16384, 16385, 65536, 1 << 20, (1 << 20) + 1, 1 << 26] {
        let class = route_size(size).unwrap();
        assert!(CLASS_SIZES[class] < 4 * size);
    }
}

#[test]
fn larger_requests_never_get_smaller_classes() {
    let sizes = [0, 1, 4096, 4097, 16384, 16385, 1 << 20, 1 << 26];
    for pair in sizes.windows(2) {
        assert!(route_size(pair[0]).unwrap() <= route_size(pair[1]).unwrap());
    }
}
