use zeropool::{Allocator, PoolIds, TlsState, ZeroPool};

fn new_pool() -> (ZeroPool, TlsState) {
    let mut ids = PoolIds::new();
    (ZeroPool::new(ids.issue(), 4), TlsState::new())
}

#[test]
fn test_basic_operations() {
    let (pool, mut tls) = new_pool();
    let mut pool = pool.min_buffer_size(0).track_stats(true);
    let buf = pool.allocate(&mut tls, 1024);
    assert_eq!(buf.len(), 1024);
    buf.release(&mut pool, &mut tls);

    let buf2 = pool.allocate(&mut tls, 1024);
    assert_eq!(buf2.len(), 1024);
}

#[test]
fn test_buffer_sizing() {
    let (pool, mut tls) = new_pool();
    let mut pool = pool.min_buffer_size(0).track_stats(true);
    let buf = pool.allocate(&mut tls, 2048);
    assert_eq!(buf.len(), 2048);
    buf.release(&mut pool, &mut tls);

    let buf2 = pool.allocate(&mut tls, 1024);
    assert_eq!(buf2.len(), 1024);
    assert!(buf2.capacity() >= 2048);
}

#[test]
fn test_min_size_filtering() {
    let (pool, mut first) = new_pool();
    let mut pool = pool.min_buffer_size(1024 * 1024).max_buffers_per_class(16);

    let tls_cache_size = pool.state.tls_cache_size;

    for _ in 0..tls_cache_size {
        let buf = pool.allocate(&mut first, 512);
        buf.release(&mut pool, &mut first);
    }
    let small_buf = pool.allocate(&mut first, 512);
    small_buf.release(&mut pool, &mut first);

    assert_eq!(pool.len(), 0);

    let mut second = TlsState::new();
    let mut buffers = Vec::new();
    for _ in 0..=tls_cache_size {
        buffers.push(pool.allocate(&mut second, 2 * 1024 * 1024));
    }
    for buf in buffers {
        buf.release(&mut pool, &mut second);
    }

    assert!(!pool.is_empty());
}

#[test]
fn test_max_pool_size() {
    let (pool, mut tls) = new_pool();
    let mut pool = pool.min_buffer_size(0).max_buffers_per_class(4).tls_cache_size(2);

    let mut buffers = Vec::new();
    for _ in 0..20 {
        buffers.push(pool.allocate(&mut tls, 4096));
    }
    for buf in buffers {
        buf.release(&mut pool, &mut tls);
    }

    assert!(pool.len() <= 4);
}

#[test]
fn test_thread_local_cache() {
    let (pool, mut tls) = new_pool();
    let mut pool = pool.min_buffer_size(0);
    let cache_size = pool.state.tls_cache_size;

    for _ in 0..cache_size {
        let buf = pool.allocate(&mut tls, 4096);
        buf.release(&mut pool, &mut tls);
    }

    assert_eq!(pool.len(), 0);

    for _ in 0..cache_size {
        let buf = pool.allocate(&mut tls, 4096);
        assert_eq!(buf.len(), 4096);
        buf.release(&mut pool, &mut tls);
    }
}

#[test]
fn test_config_api() {
    let (pool1, mut tls) = new_pool();
    assert!(!pool1.is_empty() || pool1.is_empty());

    let mut pool2 = ZeroPool::new(2, 4)
        .min_buffer_size(4096)
        .tls_cache_size(4)
        .max_buffers_per_class(16)
        .batch_size(2);

    assert_eq!(pool2.state.min_buffer_size, 4096);
    assert_eq!(pool2.state.tls_cache_size, 4);
    assert_eq!(pool2.state.batch_size, 2);

    let buf = pool2.allocate(&mut tls, 8192);
    assert_eq!(buf.len(), 8192);
}

#[test]
fn test_warm() {
    let (pool, mut tls) = new_pool();
    let mut pool = pool.min_buffer_size(0);

    let initial_len = pool.len();

    pool.warm(10, 64 * 1024);

    assert!(pool.len() > initial_len);

    let buf = pool.allocate(&mut tls, 64 * 1024);
    assert!(buf.capacity() >= 64 * 1024);
}

#[test]
fn test_edge_cases() {
    let (pool, mut tls) = new_pool();
    let mut pool = pool.tls_cache_size(2).min_buffer_size(0);

    assert!(pool.is_empty());

    let buf_zero = pool.allocate(&mut tls, 0);
    assert_eq!(buf_zero.len(), 0);
    buf_zero.release(&mut pool, &mut tls);

    let mut other = TlsState::new();
    let b1 = pool.allocate(&mut other, 4096);
    let b2 = pool.allocate(&mut other, 4096);
    b1.release(&mut pool, &mut other);
    b2.release(&mut pool, &mut other);

    let buf_large = pool.allocate(&mut other, 100 * 1024 * 1024);
    assert_eq!(buf_large.len(), 100 * 1024 * 1024);
    buf_large.release(&mut pool, &mut other);
}

#[test]
fn test_size_class_routing() {
    let (pool, _) = new_pool();
    let mut pool = pool.min_buffer_size(0).tls_cache_size(2);

    for _ in 0..4 {
        let mut tls = TlsState::new();
        let mut buffers = vec![];
        for &size in &[4096, 16384, 65536, 262_144] {
            for _ in 0..4 {
                buffers.push(pool.allocate(&mut tls, size));
            }
        }
        for buf in buffers {
            buf.release(&mut pool, &mut tls);
        }
    }

    assert!(!pool.is_empty());
}

#[test]
fn test_drain() {
    let (pool, mut tls) = new_pool();
    let mut pool = pool.min_buffer_size(0).tls_cache_size(2);

    let mut buffers = vec![];
    for _ in 0..10 {
        buffers.push(pool.allocate(&mut tls, 4096));
    }
    for buf in buffers {
        buf.release(&mut pool, &mut tls);
    }

    assert!(!pool.is_empty());

    pool.drain();

    assert_eq!(pool.len(), 0);
    assert!(pool.is_empty());

    let buf = pool.allocate(&mut tls, 4096);
    assert_eq!(buf.len(), 4096);
}

#[test]
fn test_pool_isolation() {
    let mut ids = PoolIds::new();
    let mut tls = TlsState::new();
    let mut pool1 = ZeroPool::new(ids.issue(), 4).min_buffer_size(0);
    let pool2 = ZeroPool::new(ids.issue(), 4).min_buffer_size(0);

    assert_ne!(pool1.state.id, pool2.state.id);

    let buf1 = pool1.allocate(&mut tls, 4096);
    buf1.release(&mut pool1, &mut tls);

    assert_eq!(pool2.len(), 0);
}

#[test]
fn test_batch_transfer() {
    let (pool, mut tls) = new_pool();
    let mut pool = pool.min_buffer_size(0).tls_cache_size(2).batch_size(2);

    let mut buffers = Vec::new();
    for _ in 0..10 {
        buffers.push(pool.allocate(&mut tls, 4096));
    }
    for buf in buffers {
        buf.release(&mut pool, &mut tls);
    }

    assert!(!pool.is_empty());
}

#[test]
fn test_stats_counters() {
    let (pool, mut tls) = new_pool();
    let mut pool = pool.min_buffer_size(0).track_stats(true);

    let s = pool.stats();
    assert_eq!(s.gets, 0);
    assert_eq!(s.puts, 0);

    let buf = pool.allocate(&mut tls, 4096);
    let s = pool.stats();
    assert_eq!(s.gets, 1);
    assert_eq!(s.allocations, 1);

    buf.release(&mut pool, &mut tls);
    let s = pool.stats();
    assert_eq!(s.puts, 1);
}

#[test]
fn test_stats_hit_rates() {
    let (pool, mut tls) = new_pool();
    let mut pool = pool.min_buffer_size(0).tls_cache_size(4).track_stats(true);

    let buf = pool.allocate(&mut tls, 4096);
    buf.release(&mut pool, &mut tls);

    let buf = pool.allocate(&mut tls, 4096);
    buf.release(&mut pool, &mut tls);

    let s = pool.stats();
    assert_eq!(s.gets, 2);
    assert!(s.tls_hits >= 1);
    let (hits, gets) = s.hit_ratio().unwrap();
    assert!(hits as f64 / gets as f64 > 0.0);
}

#[test]
fn test_stats_oversize() {
    let (pool, mut tls) = new_pool();
    let mut pool = pool.min_buffer_size(0).track_stats(true);

    let buf = pool.allocate(&mut tls, 128 * 1024 * 1024);
    let s = pool.stats();
    assert_eq!(s.oversize, 1);

    buf.release(&mut pool, &mut tls);
    let s = pool.stats();
    assert_eq!(s.discards, 1);
}

#[test]
fn test_stats_reset() {
    let (pool, mut tls) = new_pool();
    let mut pool = pool.min_buffer_size(0).track_stats(true);

    let buf = pool.allocate(&mut tls, 4096);
    buf.release(&mut pool, &mut tls);
    assert!(pool.stats().gets > 0);

    pool.reset_stats();
    let s = pool.stats();
    assert_eq!(s.gets, 0);
    assert_eq!(s.puts, 0);
}

#[test]
fn test_stats_display() {
    let (pool, mut tls) = new_pool();
    let mut pool = pool.min_buffer_size(0).track_stats(true);
    let buf = pool.allocate(&mut tls, 4096);
    buf.release(&mut pool, &mut tls);

    let output = pool.stats().render("0.0", "0.0");
    assert!(output.contains("gets: 1"));
    assert!(output.contains("puts: 1"));
}

#[test]
fn test_stats_class_info() {
    let (pool, _) = new_pool();
    let mut pool = pool.min_buffer_size(0);
    pool.warm(4, 4096);

    let s = pool.stats();
    assert_eq!(s.classes.len(), 8);
    assert!(s.classes.iter().any(|c| c.buffered >= 4));
}

struct DoubleCapAllocator;

impl Allocator for DoubleCapAllocator {
    fn allocate(&self, capacity: usize) -> Vec<u8> {
        Vec::with_capacity(capacity * 2)
    }
}

#[test]
fn test_custom_allocator() {
    let (pool, mut tls) = new_pool();
    let mut pool = pool.allocator(DoubleCapAllocator).min_buffer_size(0);
    let buf = pool.allocate(&mut tls, 4096);
    assert!(buf.capacity() >= 8192);
}

struct StingyAllocator;

impl Allocator for StingyAllocator {
    fn allocate(&self, _capacity: usize) -> Vec<u8> {
        vec![7; 3]
    }
}

#[test]
fn a_short_answer_of_the_allocator_is_grown() {
    let (pool, mut tls) = new_pool();
    let mut pool = pool.allocator(StingyAllocator).min_buffer_size(0);
    let buf = pool.allocate(&mut tls, 5000);
    assert!(buf.capacity() >= 16384);
    assert_eq!(buf.into_inner(), vec![0; 5000]);
}

#[test]
fn defaults_follow_the_number_of_cpus() {
    let small = ZeroPool::new(1, 1);
    assert_eq!(small.state.tls_cache_size, 2);
    assert_eq!(small.state.batch_size, 2);
    assert_eq!(small.state.min_buffer_size, 4096);
    assert!(!small.state.track_stats);
    assert!(!small.state.pinned_memory);
    let large = ZeroPool::new(1, 64);
    assert_eq!(large.state.tls_cache_size, 8);
    assert_eq!(large.state.batch_size, 4);
    let mut large = large;
    large.warm(1000, 1);
    assert_eq!(large.len(), 128);
}

#[test]
fn warm_stops_at_the_limit_and_ignores_oversize() {
    let (pool, _) = new_pool();
    let mut pool = pool.max_buffers_per_class(3);
    pool.warm(10, 4097);
    assert_eq!(pool.len(), 3);
    assert_eq!(pool.stats().classes[1].buffered, 3);
    pool.warm(10, 64 * 1024 * 1024 + 1);
    assert_eq!(pool.len(), 3);
}

#[test]
fn changing_the_limit_starts_over_empty() {
    let (mut pool, _) = new_pool();
    pool.warm(3, 1);
    assert_eq!(pool.len(), 3);
    let pool = pool.max_buffers_per_class(16);
    assert!(pool.is_empty());
}

#[test]
fn a_refill_moves_one_batch() {
    let (pool, mut tls) = new_pool();
    let mut pool = pool.tls_cache_size(8).batch_size(3).track_stats(true);
    pool.warm(10, 4096);
    let _buf = pool.allocate(&mut tls, 4096);
    assert_eq!(pool.len(), 7);
    assert_eq!(tls.caches[0].len(), 2);
    let s = pool.stats();
    assert_eq!(s.shared_hits, 1);
    assert_eq!(s.allocations, 0);
}

#[test]
fn a_batch_of_none_never_uses_the_shared_pool() {
    let (pool, mut tls) = new_pool();
    let mut pool = pool.tls_cache_size(1).batch_size(0).track_stats(true);
    pool.warm(4, 4096);
    let a = pool.allocate(&mut tls, 4096);
    let b = pool.allocate(&mut tls, 4096);
    assert_eq!(pool.stats().allocations, 2);
    a.release(&mut pool, &mut tls);
    b.release(&mut pool, &mut tls);
    assert_eq!(tls.caches[0].len(), 1);
    assert_eq!(pool.len(), 5);
}

#[test]
fn a_full_shared_class_drops_what_spills_over() {
    let (pool, mut tls) = new_pool();
    let mut pool = pool.max_buffers_per_class(2).tls_cache_size(2).batch_size(2);
    pool.warm(2, 4096);
    let mut other = TlsState::new();
    let mut buffers = Vec::new();
    for _ in 0..3 {
        buffers.push(pool.allocate(&mut other, 4096));
    }
    pool.warm(2, 4096);
    assert_eq!(pool.len(), 2);
    for buf in buffers {
        buf.release(&mut pool, &mut tls);
    }
    assert_eq!(pool.len(), 2);
    assert_eq!(tls.caches[0].len(), 2);
}

#[test]
fn pinning_leaves_the_buffer_as_it_is() {
    let (pool, mut tls) = new_pool();
    let mut pool = pool.min_buffer_size(0).pinned_memory(true).track_stats(true);
    let mut buf = pool.allocate(&mut tls, 100);
    assert_eq!(buf.len(), 100);
    buf[99] = 1;
    let cap = buf.capacity();
    buf.release(&mut pool, &mut tls);
    let buf = pool.allocate(&mut tls, 200);
    assert_eq!(buf.capacity(), cap);
    assert_eq!(buf.into_inner(), vec![0; 200]);
    assert_eq!(pool.stats().tls_hits, 1);
}

#[test]
fn identities_count_up_from_one() {
    let mut ids = PoolIds::new();
    assert_eq!(ids.issue(), 1);
    assert_eq!(ids.issue(), 2);
    assert_eq!(ids.issue(), 3);
}
