use zeropool::global::{
    route, AllocPlan, BlockLayout, DeallocPlan, Freelist, ZeroPoolGlobalAlloc, MIN_BLOCK_ALIGN,
    MIN_BLOCK_SIZE,
};

const ADDRESS: usize = 0x10000;

#[test]
fn test_route_boundaries() {
    assert_eq!(route(0), None);
    assert_eq!(route(1), Some(0));
    assert_eq!(route(4096), Some(0));
    assert_eq!(route(4097), Some(1));
    assert_eq!(route(16384), Some(1));
    assert_eq!(route(16385), Some(2));
    assert_eq!(route(64 * 1024), Some(2));
    assert_eq!(route(64 * 1024 + 1), Some(3));
    assert_eq!(route(64 * 1024 * 1024), Some(7));
    assert_eq!(route(64 * 1024 * 1024 + 1), None);
}

#[test]
fn test_freelist_push_pop() {
    let mut freelist = Freelist::new(4096, 8);
    assert_eq!(freelist.class_size(), 4096);

    assert!(freelist.push(ADDRESS));
    assert_eq!(freelist.count(), 1);

    let popped = freelist.pop();
    assert_eq!(popped, Some(ADDRESS));
    assert_eq!(freelist.count(), 0);

    assert!(freelist.pop().is_none());
}

#[test]
fn test_freelist_max_limit() {
    let mut freelist = Freelist::new(4096, 2);

    assert!(freelist.push(ADDRESS));
    assert!(freelist.push(2 * ADDRESS));
    assert!(!freelist.push(3 * ADDRESS));

    assert_eq!(freelist.pop(), Some(2 * ADDRESS));
    assert_eq!(freelist.pop(), Some(ADDRESS));
}

#[test]
fn test_global_alloc_basic() {
    let mut global = ZeroPoolGlobalAlloc::new();
    let layout = BlockLayout { size: 4096, align: 8 };

    let plan = global.plan_alloc(layout);
    assert_eq!(plan, AllocPlan::System(BlockLayout { size: 4096, align: MIN_BLOCK_ALIGN }));

    assert_eq!(global.plan_dealloc(ADDRESS, layout), DeallocPlan::Cached);
    assert_eq!(global.cached(0), 1);

    assert_eq!(global.plan_alloc(layout), AllocPlan::Cached(ADDRESS));
    assert_eq!(global.cached(0), 0);

    assert_eq!(global.plan_dealloc(ADDRESS, layout), DeallocPlan::Cached);
}

#[test]
fn test_global_alloc_oversize() {
    let mut global = ZeroPoolGlobalAlloc::new();
    let layout = BlockLayout { size: 128 * 1024 * 1024, align: 8 };

    assert_eq!(global.plan_alloc(layout), AllocPlan::System(layout));

    assert_eq!(global.plan_dealloc(ADDRESS, layout), DeallocPlan::System(layout));
    for class in 0..8 {
        assert_eq!(global.cached(class), 0);
    }
}

#[test]
fn test_global_alloc_small() {
    let mut global = ZeroPoolGlobalAlloc::new();
    let layout = BlockLayout { size: 1, align: 1 };

    assert_eq!(global.plan_alloc(layout), AllocPlan::System(layout));
    assert_eq!(global.plan_dealloc(ADDRESS, layout), DeallocPlan::System(layout));
    assert_eq!(global.cached(0), 0);
}

#[test]
fn blocks_are_allocated_at_the_class_boundary() {
    let mut global = ZeroPoolGlobalAlloc::with_max_cached(1);
    let small = BlockLayout { size: 5000, align: 4 };
    let large = BlockLayout { size: 16000, align: 8 };
    let backing = BlockLayout { size: 16384, align: MIN_BLOCK_ALIGN };
    assert_eq!(global.plan_alloc(small), AllocPlan::System(backing));
    assert_eq!(ZeroPoolGlobalAlloc::backing_layout(large), backing);
    assert_eq!(global.plan_dealloc(ADDRESS, small), DeallocPlan::Cached);
    assert_eq!(global.plan_alloc(large), AllocPlan::Cached(ADDRESS));
    assert_eq!(global.plan_dealloc(ADDRESS, large), DeallocPlan::Cached);
    assert_eq!(global.plan_dealloc(2 * ADDRESS, small), DeallocPlan::System(backing));
    assert_eq!(global.cached(1), 1);
}

#[test]
fn tiny_and_over_aligned_blocks_bypass_the_caches() {
    let mut global = ZeroPoolGlobalAlloc::default();
    let tiny = BlockLayout { size: MIN_BLOCK_SIZE - 1, align: 1 };
    let aligned = BlockLayout { size: 4096, align: 2 * MIN_BLOCK_ALIGN };
    assert_eq!(global.plan_alloc(tiny), AllocPlan::System(tiny));
    assert_eq!(global.plan_alloc(aligned), AllocPlan::System(aligned));
    assert_eq!(global.plan_dealloc(ADDRESS, tiny), DeallocPlan::System(tiny));
    assert_eq!(global.plan_dealloc(ADDRESS, aligned), DeallocPlan::System(aligned));
    assert_eq!(ZeroPoolGlobalAlloc::backing_layout(tiny), tiny);
    assert_eq!(ZeroPoolGlobalAlloc::class_layout(4096, 64), BlockLayout { size: 4096, align: 64 });
    assert_eq!(global.cached(0), 0);
}

#[test]
fn caches_hold_up_to_the_default_limit() {
    let mut global = ZeroPoolGlobalAlloc::new();
    let layout = BlockLayout { size: 100, align: 1 };
    for k in 0..64 {
        assert_eq!(global.plan_dealloc(ADDRESS + k, layout), DeallocPlan::Cached);
    }
    assert!(matches!(global.plan_dealloc(ADDRESS, layout), DeallocPlan::System(_)));
    assert_eq!(global.cached(0), 64);
}
