use zeropool::routing::{route_capacity, route_size, CLASS_SIZES, NUM_CLASSES};
use zeropool::{Block, ClassTable, SizeClass, TlsState};

#[test]
fn route_size_boundaries() {
    assert_eq!(route_size(0), Some(0));
    assert_eq!(route_size(1), Some(0));

    for (i, &boundary) in CLASS_SIZES.iter().enumerate() {
        assert_eq!(route_size(boundary), Some(i), "boundary {boundary}");
        if i + 1 < NUM_CLASSES {
            assert_eq!(route_size(boundary + 1), Some(i + 1), "boundary+1 {}", boundary + 1);
        }
    }

    assert_eq!(route_size(CLASS_SIZES[NUM_CLASSES - 1] + 1), None);
    assert_eq!(route_size(usize::MAX), None);
}

#[test]
fn route_capacity_boundaries() {
    assert_eq!(route_capacity(0), None);
    assert_eq!(route_capacity(CLASS_SIZES[0] - 1), None);

    for (i, &boundary) in CLASS_SIZES.iter().enumerate() {
        assert_eq!(route_capacity(boundary), Some(i), "boundary {boundary}");
    }

    assert_eq!(route_capacity(CLASS_SIZES[0] + 1), Some(0));
    assert_eq!(route_capacity(CLASS_SIZES[1] - 1), Some(0));

    assert_eq!(route_capacity(CLASS_SIZES[NUM_CLASSES - 1] + 1), Some(NUM_CLASSES - 1));
    assert_eq!(route_capacity(usize::MAX), Some(NUM_CLASSES - 1));
}

#[test]
fn class_table_route_returns_correct_class() {
    let table = ClassTable::new(32);
    let (idx, class) = table.route(4096).unwrap();
    assert_eq!(idx, 0);
    assert_eq!(class.class_size(), 4 * 1024);

    let (idx, class) = table.route(65536).unwrap();
    assert_eq!(idx, 2);
    assert_eq!(class.class_size(), 64 * 1024);

    assert!(table.route(128 * 1024 * 1024).is_none());
}

#[test]
fn boundaries_are_powers_of_four_pages() {
    for i in 0..NUM_CLASSES {
        assert_eq!(ClassTable::boundary(i), 4096 << (2 * i));
    }
}

#[test]
fn capacities_route_down_and_index_reaches_the_class() {
    let table = ClassTable::new(4);
    let (idx, class) = table.route_capacity(20000).unwrap();
    assert_eq!(idx, 1);
    assert_eq!(class.class_size(), 16384);
    assert!(table.route_capacity(4095).is_none());
    assert_eq!(table[3].class_size(), 262144);
    assert_eq!(table.classes().len(), 8);
    assert!(table.all_empty());
}

#[test]
fn classes_are_first_in_first_out_and_bounded() {
    let mut class = SizeClass::new(16, 2);
    assert!(class.is_empty());
    assert!(class.push(Block::with_room(Vec::new(), 100)).is_ok());
    assert!(class.push(Block::with_room(Vec::new(), 200)).is_ok());
    let refused = class.push(Block::with_room(Vec::new(), 300));
    assert!(refused.unwrap_err().capacity() >= 300);
    assert_eq!(class.len(), 2);
    let first = class.pop().unwrap();
    assert!(first.capacity() >= 100 && first.capacity() < 200);
    assert!(class.pop().unwrap().capacity() >= 200);
    assert!(class.pop().is_none());
    assert_eq!(class.len(), 0);
}

#[test]
fn a_cleared_class_is_empty_and_usable() {
    let mut class = SizeClass::new(16, 3);
    for _ in 0..3 {
        assert!(class.push(Block::with_room(Vec::new(), 16)).is_ok());
    }
    class.clear();
    assert!(class.is_empty());
    assert!(class.pop().is_none());
    assert!(class.push(Block::with_room(Vec::new(), 16)).is_ok());
    assert_eq!(class.len(), 1);
}

#[test]
fn a_class_allocates_at_its_boundary() {
    let class = SizeClass::new(4096, 1);
    let block = class.allocate(10);
    assert_eq!(block.len(), 10);
    assert!(block.capacity() >= 4096);
    assert_eq!(block.into_vec(), vec![0; 10]);
    let block = ClassTable::oversize(70);
    assert!(block.capacity() >= 70);
    assert_eq!(block.into_vec(), vec![0; 70]);
}

#[test]
fn resizing_zeroes_the_bytes() {
    let mut block = Block::new(vec![9; 8]);
    SizeClass::resize(&mut block, 5);
    assert_eq!(block.into_vec(), vec![0; 5]);
}

#[test]
fn table_counts_and_clears_all_classes() {
    let mut table = ClassTable::new(2);
    assert!(table.classes[0].push(Block::with_room(Vec::new(), 4096)).is_ok());
    assert!(table.classes[2].push(Block::with_room(Vec::new(), 65536)).is_ok());
    assert!(table.classes[2].push(Block::with_room(Vec::new(), 65536)).is_ok());
    assert_eq!(table.total_buffered(), 3);
    assert!(!table.all_empty());
    table.clear_all();
    assert_eq!(table.total_buffered(), 0);
    assert!(table.all_empty());
}

#[test]
fn blocks_know_their_capacity() {
    let block = Block::new(Vec::with_capacity(8192));
    assert!(block.capacity() >= 8192);
    assert!(block.is_empty());
    let mut block = Block::new(vec![1, 2, 3]);
    assert_eq!(block.as_slice(), &[1, 2, 3]);
    block.as_mut_slice()[1] = 7;
    block.append(&[4]);
    assert_eq!(block.len(), 4);
    assert!(block.capacity() >= 4);
    let cap = block.capacity();
    block.clear();
    assert_eq!(block.capacity(), cap);
    block.append(&[5]);
    assert_eq!(block.into_vec(), vec![5]);
}

#[test]
fn room_is_what_the_vector_offers() {
    let bytes: Vec<u8> = Vec::with_capacity(5000);
    let capacity = bytes.capacity();
    assert_eq!(Block::with_room(bytes, 4096).capacity(), capacity);
    let bytes: Vec<u8> = Vec::with_capacity(10);
    assert!(Block::with_room(bytes, 4096).capacity() >= 4096);
}

#[test]
fn an_empty_block_is_never_locked() {
    assert!(!Block::new(Vec::new()).pin());
}

#[test]
fn thread_state_refills_and_spills_in_batches() {
    let mut class = SizeClass::new(4096, 4);
    for _ in 0..4 {
        assert!(class.push(Block::with_room(Vec::new(), 4096)).is_ok());
    }
    let mut tls = TlsState::new();
    assert!(tls.belongs_to(0));
    tls.init_for(7, 2);
    assert!(tls.belongs_to(7));
    assert!(!tls.belongs_to(0));
    assert_eq!(tls.batch_refill(0, &mut class, 3), 3);
    assert_eq!(tls.caches[0].len(), 3);
    assert_eq!(class.len(), 1);
    assert_eq!(tls.batch_refill(0, &mut class, 3), 1);
    tls.batch_spill(0, &mut class, 2);
    assert_eq!(tls.caches[0].len(), 2);
    assert_eq!(class.len(), 2);
    assert!(tls.refill(0, &mut class, 2).is_some());
    assert_eq!(tls.caches[0].len(), 3);
    tls.init_for(7, 5);
    assert_eq!(tls.caches[0].len(), 3);
    tls.init_for(8, 5);
    assert_eq!(tls.caches[0].len(), 0);
    assert_eq!(tls.limit, 5);
    tls.caches[1].push(Block::with_room(Vec::with_capacity(30000), 16384));
    let capacity = tls.caches[1][0].capacity();
    tls.init_for(8, 0);
    assert_eq!(tls.caches[1].len(), 1);
    assert_eq!(tls.caches[1][0].capacity(), capacity);
}

#[test]
fn a_spill_into_a_full_class_loses_one_block() {
    let mut class = SizeClass::new(4096, 1);
    let mut tls = TlsState::new();
    tls.init_for(1, 4);
    for _ in 0..3 {
        tls.caches[0].push(Block::with_room(Vec::new(), 4096));
    }
    tls.batch_spill(0, &mut class, 3);
    assert_eq!(class.len(), 1);
    assert_eq!(tls.caches[0].len(), 1);
}
