use zeropool::config::{
    default_batch_size, default_max_buffers_per_class, default_tls_cache_size,
    DEFAULT_MIN_BUFFER_SIZE,
};
use zeropool::metrics::{bump, format_size, snapshot};
use zeropool::text::{describe_buffer, push_decimal, push_right_aligned};
use zeropool::{Block, ClassInfo, Counters, PoolStats, SizeClass, TlsState, ZeroPool};

fn sample() -> PoolStats {
    let mut classes = [ClassInfo { boundary: 0, buffered: 0 }; 8];
    for (i, class) in classes.iter_mut().enumerate() {
        class.boundary = 4096 << (2 * i);
    }
    classes[0].buffered = 3;
    classes[7].buffered = 12;
    PoolStats {
        gets: 10,
        tls_hits: 6,
        shared_hits: 2,
        allocations: 2,
        puts: 9,
        discards: 1,
        oversize: 0,
        classes,
    }
}

#[test]
fn counters_start_and_reset_at_zero() {
    let mut counters = Counters::new();
    counters.gets = 4;
    counters.oversize = 2;
    counters.reset();
    assert_eq!(counters.gets, 0);
    assert_eq!(counters.oversize, 0);
    assert_eq!(counters.puts, 0);
}

#[test]
fn counters_wrap_around() {
    assert_eq!(bump(41), 42);
    assert_eq!(bump(u64::MAX), 0);
}

#[test]
fn ratios_are_hits_out_of_requests() {
    let stats = sample();
    assert_eq!(stats.tls_hit_ratio(), Some((6, 10)));
    assert_eq!(stats.hit_ratio(), Some((8, 10)));
    let idle = ZeroPool::new(1, 4).stats();
    assert_eq!(idle.tls_hit_ratio(), None);
    assert_eq!(idle.hit_ratio(), None);
}

#[test]
fn the_description_is_exact() {
    let expected = "gets: 10 | puts: 9 | hit_rate: 80.0%\n  tls_hits: 6 (60.0%) | \
                    shared_hits: 2 | allocations: 2 | discards: 1 | oversize: 0\n  \
                    [    4KB] 3 buffered\n  [   64MB] 12 buffered\n";
    assert_eq!(sample().render("80.0", "60.0"), expected);
}

#[test]
fn sizes_are_rounded_down_to_a_unit() {
    assert_eq!(format_size(0), "0B");
    assert_eq!(format_size(1023), "1023B");
    assert_eq!(format_size(1024), "1KB");
    assert_eq!(format_size(4096), "4KB");
    assert_eq!(format_size(1024 * 1024 - 1), "1023KB");
    assert_eq!(format_size(64 * 1024 * 1024), "64MB");
}

#[test]
fn numbers_and_padding() {
    let mut text = String::new();
    push_decimal(&mut text, 0);
    push_decimal(&mut text, u64::MAX);
    assert_eq!(text, "018446744073709551615");
    let mut text = String::from("[");
    push_right_aligned(&mut text, "4KB", 7);
    push_right_aligned(&mut text, "too long", 3);
    assert_eq!(text, "[    4KBtoo long");
    assert_eq!(describe_buffer("Buf", 3, 40), "Buf { len: 3, capacity: 40 }");
}

#[test]
fn a_snapshot_without_classes_shows_the_counters() {
    let mut counters = Counters::new();
    counters.gets = 4;
    counters.tls_hits = 1;
    counters.shared_hits = 2;
    counters.allocations = 1;
    counters.puts = 3;
    let stats = snapshot(&counters, &[]);
    assert_eq!((stats.gets, stats.tls_hits, stats.shared_hits), (4, 1, 2));
    assert_eq!((stats.allocations, stats.puts), (1, 3));
    assert_eq!((stats.discards, stats.oversize), (0, 0));
    let (hits, gets) = stats.tls_hit_ratio().unwrap();
    assert_eq!(hits as f64 / gets as f64, 0.25);
    let (hits, gets) = stats.hit_ratio().unwrap();
    assert_eq!(hits as f64 / gets as f64, 0.75);
    for class in stats.classes {
        assert_eq!((class.boundary, class.buffered), (0, 0));
    }
}

#[test]
fn a_snapshot_of_fewer_classes_leaves_the_rest_at_zero() {
    let mut class = SizeClass::new(100, 2);
    assert!(class.push(Block::with_room(Vec::new(), 100)).is_ok());
    let stats = snapshot(&Counters::new(), &[SizeClass::new(50, 1), class]);
    assert_eq!((stats.classes[0].boundary, stats.classes[0].buffered), (50, 0));
    assert_eq!((stats.classes[1].boundary, stats.classes[1].buffered), (100, 1));
    for class in &stats.classes[2..] {
        assert_eq!((class.boundary, class.buffered), (0, 0));
    }
}

#[test]
fn snapshots_show_the_shared_classes() {
    let mut pool = ZeroPool::new(1, 4).track_stats(true);
    let mut tls = TlsState::new();
    pool.warm(2, 4096);
    pool.warm(1, 1024 * 1024);
    let buf = pool.allocate(&mut tls, 1);
    let stats = pool.stats();
    assert_eq!(stats.classes[0].boundary, 4096);
    assert_eq!(stats.classes[0].buffered, 0);
    assert_eq!(stats.classes[4].boundary, 1024 * 1024);
    assert_eq!(stats.classes[4].buffered, 1);
    assert_eq!(stats.shared_hits, 1);
    buf.release(&mut pool, &mut tls);
}

#[test]
fn defaults_by_cpu_count() {
    assert_eq!(DEFAULT_MIN_BUFFER_SIZE, 4096);
    for (cpus, size) in [(0, 2), (2, 2), (3, 4), (4, 4), (5, 6), (8, 6), (9, 8), (128, 8)] {
        assert_eq!(default_tls_cache_size(cpus), size);
    }
    for (cpus, count) in [(0, 32), (15, 32), (16, 64), (31, 64), (32, 96), (63, 96), (64, 128)] {
        assert_eq!(default_max_buffers_per_class(cpus), count);
    }
    for (cache, batch) in [(0, 2), (3, 2), (4, 2), (6, 3), (8, 4)] {
        assert_eq!(default_batch_size(cache), batch);
    }
}
