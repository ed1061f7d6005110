use zeropool::workload::checkpoint::{
    load_checkpoint, load_transformer_layer, METADATA_ITEMS_PER_LAYER,
};
use zeropool::workload::file_pipeline::{
    process_all_files, process_file, select_file_type, FileType,
};
use zeropool::workload::network::{
    generate_response, handle_connection, packet_size, parse_request, PACKET_SIZES,
};
use zeropool::workload::stress::{
    burst_round, cache_thrashing, chaos_size, eviction_pressure, mixed_size, mixed_sizes,
    next_random, random_chaos, StressPhase, BURST_SIZE,
};
use zeropool::workload::touch::{mark_ends, set_first};
use zeropool::workload::trace::Trace;
use zeropool::{TlsState, ZeroPool};

fn setup() -> (ZeroPool, TlsState, Trace) {
    let pool = ZeroPool::new(1, 4).min_buffer_size(64).track_stats(true);
    let tls = TlsState::new();
    let trace = Trace::new(&pool, &tls);
    (pool, tls, trace)
}

#[test]
fn file_types_in_turn() {
    let names: Vec<&str> = FileType::all().iter().map(|t| t.name()).collect();
    assert_eq!(names, vec!["text", "json", "image", "video", "database"]);
    let sizes: Vec<usize> = FileType::all().iter().map(|t| t.chunk_size()).collect();
    assert_eq!(sizes, vec![4096, 16384, 65536, 262144, 1048576]);
    assert_eq!(select_file_type(0), FileType::SmallText);
    assert_eq!(select_file_type(9), FileType::Database);
}

#[test]
fn a_file_reads_and_writes_every_chunk() {
    let (mut pool, mut tls, mut trace) = setup();
    let bytes = process_file(&mut pool, &mut tls, &mut trace, FileType::MediumJson);
    assert_eq!(bytes, 2 * 50 * 16384);
    let s = pool.stats();
    assert_eq!((s.gets, s.puts), (100, 100));
    assert_eq!(s.allocations, 2);
}

#[test]
fn a_run_of_files_adds_up() {
    let (mut pool, mut tls, mut trace) = setup();
    zeropool::workload::file_pipeline::preallocate_buffers(&mut pool);
    assert_eq!(pool.len(), 40);
    let bytes = process_all_files(&mut pool, &mut tls, &mut trace, 6);
    assert_eq!(bytes, 100 * (2 * 4096 + 16384 + 65536 + 262144 + 1048576));
    assert_eq!(pool.stats().gets, 600);
    assert_eq!(pool.stats().allocations, 0);
}

#[test]
fn a_layer_loads_metadata_and_weights() {
    let (mut pool, mut tls, mut trace) = setup();
    load_transformer_layer(&mut pool, &mut tls, &mut trace);
    let s = pool.stats();
    assert_eq!(s.gets, METADATA_ITEMS_PER_LAYER as u64 + 8);
    assert_eq!(s.puts, s.gets);
    assert_eq!(s.oversize, 2);
    assert_eq!(s.discards, 2);
    assert_eq!(s.tls_hits, 9 + 3 + 1);
}

#[test]
fn a_checkpoint_without_layers_has_embeddings_and_head() {
    let (mut pool, mut tls, mut trace) = setup();
    load_checkpoint(&mut pool, &mut tls, &mut trace, 0);
    let s = pool.stats();
    assert_eq!((s.gets, s.oversize), (4, 2));
    assert_eq!(s.discards, 2);
    assert_eq!(tls.caches[7].len(), 1);
    assert_eq!(tls.caches[4].len(), 1);
}

#[test]
fn tensors_are_preallocated_where_a_class_serves_them() {
    let (pool, _, _) = setup();
    let mut pool = pool.max_buffers_per_class(1);
    zeropool::workload::checkpoint::preallocate_buffers(&mut pool);
    assert_eq!(pool.len(), 2);
    assert_eq!(pool.stats().classes[7].buffered, 1);
}

#[test]
fn packet_sizes_follow_their_shares() {
    let mut draw = 0;
    for (size, weight) in PACKET_SIZES {
        for _ in 0..weight {
            assert_eq!(packet_size(draw), size);
            draw += 1;
        }
    }
    assert_eq!(draw, 100);
    assert_eq!(packet_size(100), 64);
}

#[test]
fn a_connection_counts_requests_and_bytes() {
    let (mut pool, mut tls, mut trace) = setup();
    let draws = [(0, 99), (75, 50), (98, 96)];
    let (requests, bytes) = handle_connection(&mut pool, &mut tls, &mut trace, &draws);
    assert_eq!(requests, 3);
    assert_eq!(bytes, 64 + 65536 + 1024 + 512 + 32768 + 16384);
    assert_eq!(pool.stats().gets, 6);
    assert_eq!(pool.stats().puts, 6);
}

#[test]
fn packets_are_touched_at_the_front() {
    let mut buffer = [0u8; 3];
    assert_eq!(parse_request(&buffer), 3);
    generate_response(&mut buffer, 515);
    assert_eq!(buffer, [3, 0, 0]);
    set_first(&mut buffer, 1);
    assert_eq!(buffer, [1, 0, 0]);
    mark_ends(&mut buffer);
    assert_eq!(buffer, [1, 0, 1]);
    let mut none: [u8; 0] = [];
    mark_ends(&mut none);
    set_first(&mut none, 1);
    let mut one = [5u8];
    mark_ends(&mut one);
    assert_eq!(one, [1]);
}

#[test]
fn common_packet_sizes_are_preallocated() {
    let (pool, _, _) = setup();
    let mut pool = pool.max_buffers_per_class(128);
    zeropool::workload::network::preallocate_common_sizes(&mut pool);
    assert_eq!(pool.stats().classes[0].buffered, 112);
    assert_eq!(pool.stats().classes[1].buffered, 8);
}

#[test]
fn stress_phases_in_order() {
    let names: Vec<&str> = StressPhase::all().iter().map(|p| p.name()).collect();
    assert_eq!(
        names,
        vec![
            "Burst Allocations",
            "Cache Thrashing",
            "Mixed Sizes",
            "Eviction Pressure",
            "Random Chaos"
        ]
    );
}

#[test]
fn a_burst_holds_all_its_buffers_at_once() {
    let (mut pool, mut tls, mut trace) = setup();
    burst_round(&mut pool, &mut tls, &mut trace, 1);
    let s = pool.stats();
    assert_eq!(s.gets, BURST_SIZE as u64);
    assert_eq!(s.allocations, BURST_SIZE as u64);
    assert_eq!(s.puts, BURST_SIZE as u64);
    assert_eq!(s.classes[1].buffered, 32);
}

#[test]
fn thrashing_alternates_two_sizes() {
    let (mut pool, mut tls, mut trace) = setup();
    cache_thrashing(&mut pool, &mut tls, &mut trace, 1, 3);
    let s = pool.stats();
    assert_eq!((s.gets, s.allocations, s.tls_hits), (12, 2, 10));
    assert_eq!(tls.caches[1].len(), 1);
    assert_eq!(tls.caches[3].len(), 1);
}

#[test]
fn mixed_sizes_walk_the_tables() {
    assert_eq!(mixed_size(0, 0), 64);
    assert_eq!(mixed_size(0, 1), 8192);
    assert_eq!(mixed_size(1, 1), 262144);
    assert_eq!(mixed_size(0, 3), 1048576);
    let (mut pool, mut tls, mut trace) = setup();
    mixed_sizes(&mut pool, &mut tls, &mut trace, 0, 8);
    assert_eq!(pool.stats().gets, 8);
}

#[test]
fn eviction_rounds_take_more_than_the_pool_keeps() {
    let (mut pool, mut tls, mut trace) = setup();
    eviction_pressure(&mut pool, &mut tls, &mut trace, 2);
    let s = pool.stats();
    assert_eq!(s.gets, 210);
    assert_eq!(s.puts, 210);
    assert!(pool.len() <= 8 * 32);
}

#[test]
fn chaos_is_reproducible() {
    assert_eq!(next_random(0), 12345);
    assert_eq!(next_random(1), 1103527590);
    assert_eq!(chaos_size(12345), 64);
    assert_eq!(chaos_size(8 << 16), 4096);
    assert_eq!(chaos_size((15 << 16) | (1 << 8)), 131072);
    assert_eq!(chaos_size(19 << 16), 2097152);
    let (mut pool, mut tls, mut trace) = setup();
    random_chaos(&mut pool, &mut tls, &mut trace, 3, 40);
    let first = pool.stats().gets;
    let (mut pool, mut tls, mut trace) = setup();
    random_chaos(&mut pool, &mut tls, &mut trace, 3, 40);
    assert_eq!(pool.stats().gets, first);
    assert_eq!(pool.stats().puts, first);
    assert!(first >= 40);
}
