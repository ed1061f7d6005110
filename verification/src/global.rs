//! Block caching for a global allocator.
//!
//! The allocator itself, with its pointers, is outside: it asks here where a block comes from and
//! where it goes, and blocks are known by their addresses.

use vstd::prelude::*;

use crate::routing::{
    class_boundary, class_for_size, lemma_boundaries, lemma_boundaries_increase,
    lemma_class_for_size, route_size, CLASS_SIZES, NUM_CLASSES,
};

verus! {

/// Default limit of cached blocks per class.
const DEFAULT_MAX_CACHED: usize = 64;

/// Smallest block that can be cached: it must hold a pointer.
pub const MIN_BLOCK_SIZE: usize = usize::BITS as usize / 8;

/// Alignment of cached blocks: that of a pointer.
pub const MIN_BLOCK_ALIGN: usize = usize::BITS as usize / 8;

/// Size and alignment of a block.
#[derive(Debug, Clone, Copy, PartialEq, Eq, Structural)]
pub struct BlockLayout {
    /// Size in bytes.
    pub size: usize,
    /// Alignment in bytes.
    pub align: usize,
}

/// Where the memory for an allocation comes from.
#[derive(Debug, Clone, Copy, PartialEq, Eq, Structural)]
pub enum AllocPlan {
    /// A cached block at this address.
    Cached(usize),
    /// The system allocator, asked for this layout.
    System(BlockLayout),
}

/// Where a freed block goes.
#[derive(Debug, Clone, Copy, PartialEq, Eq, Structural)]
pub enum DeallocPlan {
    /// It stays cached.
    Cached,
    /// Back to the system allocator, with this layout.
    System(BlockLayout),
}

/// Cached blocks of one class, last in first out.
#[derive(Debug)]
pub struct Freelist {
    blocks: Vec<usize>,
    max: usize,
    class_size: usize,
}

impl Freelist {
    /// The addresses of the cached blocks, oldest first.
    pub closed spec fn addresses(&self) -> Seq<usize> {
        self.blocks@
    }

    /// The most blocks that are cached.
    pub closed spec fn limit(&self) -> nat {
        self.max as nat
    }

    /// The size of every cached block.
    pub closed spec fn boundary(&self) -> int {
        self.class_size as int
    }

    /// Creates an empty list for blocks of `class_size` bytes that caches up to `max` of them.
    pub fn new(class_size: usize, max: usize) -> (list: Freelist)
        ensures
            list.addresses() == Seq::<usize>::empty(),
            list.limit() == max,
            list.boundary() == class_size,
    {
        Freelist { blocks: Vec::new(), max, class_size }
    }

    /// Number of cached blocks.
    pub fn count(&self) -> (n: usize)
        ensures
            n == self.addresses().len(),
    {
        self.blocks.len()
    }

    /// The size of every cached block.
    pub fn class_size(&self) -> (n: usize)
        ensures
            n == self.boundary(),
    {
        self.class_size
    }

    /// Takes out the block that was cached last.
    pub fn pop(&mut self) -> (address: Option<usize>)
        ensures
            final(self).limit() == old(self).limit(),
            final(self).boundary() == old(self).boundary(),
            match address {
                Some(a) => {
                    &&& old(self).addresses().len() > 0
                    &&& a == old(self).addresses().last()
                    &&& final(self).addresses() == old(self).addresses().drop_last()
                },
                None => {
                    &&& old(self).addresses().len() == 0
                    &&& final(self).addresses() == old(self).addresses()
                },
            },
    {
        self.blocks.pop()
    }

    /// Caches a block unless the limit is reached. Returns whether it was cached.
    pub fn push(&mut self, address: usize) -> (cached: bool)
        ensures
            final(self).limit() == old(self).limit(),
            final(self).boundary() == old(self).boundary(),
            cached == (old(self).addresses().len() < old(self).limit()),
            final(self).addresses() == (if cached {
                old(self).addresses().push(address)
            } else {
                old(self).addresses()
            }),
    {
        if self.blocks.len() >= self.max {
            return false;
        }
        self.blocks.push(address);
        true
    }
}

/// The class that caches blocks for an allocation of `size` bytes: as for the pool, but nothing
/// for an empty allocation.
pub open spec fn global_class(size: int) -> Option<int> {
    if size == 0 {
        None
    } else {
        class_for_size(size)
    }
}

/// Maps the size of an allocation to its class.
pub fn route(size: usize) -> (class: Option<usize>)
    ensures
        match class {
            Some(i) => global_class(size as int) == Some(i as int),
            None => global_class(size as int) is None,
        },
{
    if size == 0 {
        return None;
    }
    route_size(size)
}

/// The class whose cache an allocation uses: none if the block could not hold a pointer, needs a
/// larger alignment, or is too large.
pub open spec fn cache_class(layout: BlockLayout) -> Option<int> {
    if layout.size < MIN_BLOCK_SIZE || layout.align > MIN_BLOCK_ALIGN {
        None
    } else {
        global_class(layout.size as int)
    }
}

/// The layout that the system allocator sees for an allocation: that of the whole class for an
/// allocation that uses a cache, otherwise the one asked for.
pub open spec fn system_layout(layout: BlockLayout) -> BlockLayout {
    match cache_class(layout) {
        None => layout,
        Some(i) => BlockLayout { size: class_boundary(i) as usize, align: MIN_BLOCK_ALIGN },
    }
}

/// Cached addresses per class, oldest first.
pub type Cached = Seq<Seq<usize>>;

/// The plan for an allocation, by what is cached.
pub open spec fn alloc_plan(cached: Cached, layout: BlockLayout) -> AllocPlan {
    match cache_class(layout) {
        Some(i) if cached[i].len() > 0 => AllocPlan::Cached(cached[i].last()),
        _ => AllocPlan::System(system_layout(layout)),
    }
}

/// What is cached after an allocation.
pub open spec fn cached_after_alloc(cached: Cached, layout: BlockLayout) -> Cached {
    match cache_class(layout) {
        Some(i) if cached[i].len() > 0 => cached.update(i, cached[i].drop_last()),
        _ => cached,
    }
}

/// The plan for a freed block, by what is cached.
pub open spec fn dealloc_plan(cached: Cached, limit: nat, layout: BlockLayout) -> DeallocPlan {
    match cache_class(layout) {
        Some(i) if cached[i].len() < limit => DeallocPlan::Cached,
        _ => DeallocPlan::System(system_layout(layout)),
    }
}

/// What is cached after a block was freed.
pub open spec fn cached_after_dealloc(
    cached: Cached,
    limit: nat,
    address: usize,
    layout: BlockLayout,
) -> Cached {
    match cache_class(layout) {
        Some(i) if cached[i].len() < limit => cached.update(i, cached[i].push(address)),
        _ => cached,
    }
}

/// One [`Freelist`] per size class.
///
/// Blocks are allocated at the class boundary, so any block in a list can satisfy any request of
/// its class.
#[derive(Debug)]
pub struct ZeroPoolGlobalAlloc {
    classes: Vec<Freelist>,
    max: usize,
}

impl View for ZeroPoolGlobalAlloc {
    type V = Cached;

    closed spec fn view(&self) -> Cached {
        self.classes@.map_values(|list: Freelist| list.addresses())
    }
}

impl ZeroPoolGlobalAlloc {
    /// The most blocks that are cached per class.
    pub closed spec fn limit(&self) -> nat {
        self.max as nat
    }

    /// There is a list for every class, with the boundary of the class and the common limit, and
    /// none is longer than that.
    pub closed spec fn wf(&self) -> bool {
        &&& self.classes@.len() == NUM_CLASSES
        &&& forall|i: int|
            0 <= i < NUM_CLASSES ==> {
                &&& (#[trigger] self.classes@[i]).boundary() == class_boundary(i)
                &&& self.classes@[i].limit() == self.limit()
                &&& self.classes@[i].addresses().len() <= self.limit()
            }
    }

    /// Caches up to 64 blocks per class.
    pub fn new() -> (global: ZeroPoolGlobalAlloc)
        ensures
            global.wf(),
            global.limit() == 64,
            global@ == Seq::new(NUM_CLASSES as nat, |i: int| Seq::<usize>::empty()),
    {
        ZeroPoolGlobalAlloc::with_max_cached(DEFAULT_MAX_CACHED)
    }

    /// Caches up to `max` blocks per class.
    pub fn with_max_cached(max: usize) -> (global: ZeroPoolGlobalAlloc)
        ensures
            global.wf(),
            global.limit() == max,
            global@ == Seq::new(NUM_CLASSES as nat, |i: int| Seq::<usize>::empty()),
    {
        proof {
            lemma_boundaries();
        }
        let mut classes: Vec<Freelist> = Vec::new();
        let mut i: usize = 0;
        while i < NUM_CLASSES
            invariant
                i <= NUM_CLASSES,
                classes@.len() == i,
                forall|k: int|
                    0 <= k < NUM_CLASSES ==> #[trigger] class_boundary(k) == CLASS_SIZES[k],
                forall|k: int|
                    0 <= k < i ==> {
                        &&& (#[trigger] classes@[k]).boundary() == class_boundary(k)
                        &&& classes@[k].limit() == max
                        &&& classes@[k].addresses() == Seq::<usize>::empty()
                    },
            decreases NUM_CLASSES - i,
        {
            classes.push(Freelist::new(CLASS_SIZES[i], max));
            assert(class_boundary(i as int) == CLASS_SIZES[i as int]);
            i = i + 1;
        }
        let global = ZeroPoolGlobalAlloc { classes, max };
        assert(global@ =~~= Seq::new(NUM_CLASSES as nat, |i: int| Seq::<usize>::empty()));
        global
    }

    /// The layout of the blocks of a class.
    pub fn class_layout(class_size: usize, align: usize) -> (layout: BlockLayout)
        ensures
            layout.size == class_size,
            layout.align == (if align > MIN_BLOCK_ALIGN {
                align
            } else {
                MIN_BLOCK_ALIGN
            }),
    {
        let effective: usize = if align > MIN_BLOCK_ALIGN {
            align
        } else {
            MIN_BLOCK_ALIGN
        };
        BlockLayout { size: class_size, align: effective }
    }

    /// The layout that the system allocator sees for an allocation.
    pub fn backing_layout(layout: BlockLayout) -> (backing: BlockLayout)
        ensures
            backing == system_layout(layout),
    {
        proof {
            lemma_boundaries();
            lemma_class_for_size(layout.size as int);
        }
        if layout.size < MIN_BLOCK_SIZE || layout.align > MIN_BLOCK_ALIGN {
            return layout;
        }
        match route(layout.size) {
            Some(idx) => ZeroPoolGlobalAlloc::class_layout(CLASS_SIZES[idx], layout.align),
            None => layout,
        }
    }

    /// Number of cached blocks of a class.
    pub fn cached(&self, class_idx: usize) -> (n: usize)
        requires
            self.wf(),
            class_idx < NUM_CLASSES,
        ensures
            n == self@[class_idx as int].len(),
    {
        self.classes[class_idx].count()
    }

    /// Plans an allocation: a cached block of its class if there is one, otherwise memory from
    /// the system allocator.
    pub fn plan_alloc(&mut self, layout: BlockLayout) -> (plan: AllocPlan)
        requires
            old(self).wf(),
        ensures
            final(self).wf(),
            final(self).limit() == old(self).limit(),
            plan == alloc_plan(old(self)@, layout),
            final(self)@ == cached_after_alloc(old(self)@, layout),
    {
        proof {
            lemma_boundaries();
            lemma_class_for_size(layout.size as int);
        }
        let ghost before = self@;
        if layout.size < MIN_BLOCK_SIZE || layout.align > MIN_BLOCK_ALIGN {
            return AllocPlan::System(layout);
        }
        match route(layout.size) {
            Some(idx) => {
                let ghost list = self.classes@[idx as int];
                assert(before[idx as int] == list.addresses());
                match self.classes[idx].pop() {
                    Some(address) => {
                        assert(self@ =~~= cached_after_alloc(before, layout));
                        AllocPlan::Cached(address)
                    },
                    None => {
                        assert(self@ =~~= before);
                        AllocPlan::System(
                            ZeroPoolGlobalAlloc::class_layout(
                                self.classes[idx].class_size(),
                                layout.align,
                            ),
                        )
                    },
                }
            },
            None => AllocPlan::System(layout),
        }
    }

    /// Plans the release of a block: it is cached in its class if the limit allows, otherwise it
    /// goes back to the system allocator.
    pub fn plan_dealloc(&mut self, address: usize, layout: BlockLayout) -> (plan: DeallocPlan)
        requires
            old(self).wf(),
        ensures
            final(self).wf(),
            final(self).limit() == old(self).limit(),
            plan == dealloc_plan(old(self)@, old(self).limit(), layout),
            final(self)@ == cached_after_dealloc(old(self)@, old(self).limit(), address, layout),
    {
        proof {
            lemma_boundaries();
            lemma_class_for_size(layout.size as int);
        }
        let ghost before = self@;
        if layout.size < MIN_BLOCK_SIZE || layout.align > MIN_BLOCK_ALIGN {
            return DeallocPlan::System(layout);
        }
        match route(layout.size) {
            Some(idx) => {
                let ghost list = self.classes@[idx as int];
                assert(before[idx as int] == list.addresses());
                if self.classes[idx].push(address) {
                    assert(self@ =~~= cached_after_dealloc(before, self.limit(), address, layout));
                    return DeallocPlan::Cached;
                }
                assert(self@ =~~= before);
                DeallocPlan::System(
                    ZeroPoolGlobalAlloc::class_layout(
                        self.classes[idx].class_size(),
                        layout.align,
                    ),
                )
            },
            None => DeallocPlan::System(layout),
        }
    }
}

impl Default for ZeroPoolGlobalAlloc {
    fn default() -> (global: ZeroPoolGlobalAlloc)
        ensures
            global.wf(),
            global.limit() == 64,
            global@ == Seq::new(NUM_CLASSES as nat, |i: int| Seq::<usize>::empty()),
    {
        ZeroPoolGlobalAlloc::new()
    }
}

/// Every list stays within the limit.
pub proof fn law_caches_stay_within_the_limit(global: ZeroPoolGlobalAlloc, i: int)
    requires
        global.wf(),
        0 <= i < NUM_CLASSES,
    ensures
        global@.len() == NUM_CLASSES,
        global@[i].len() <= global.limit(),
{
    assert(global@[i] == global.classes@[i].addresses());
}

/// Memory that came from the system allocator goes back to it with the layout it was asked for
/// with, whatever was cached in between.
pub proof fn law_system_memory_returns_with_its_layout(
    cached: Cached,
    later: Cached,
    limit: nat,
    layout: BlockLayout,
)
    ensures
        alloc_plan(cached, layout) is System ==> alloc_plan(cached, layout)->System_0
            == system_layout(layout),
        dealloc_plan(later, limit, layout) is System ==> dealloc_plan(
            later,
            limit,
            layout,
        )->System_0 == system_layout(layout),
{
}

/// Two allocations of one class use the same system layout, so a cached block serves either; and
/// it is large enough and well enough aligned for both.
pub proof fn law_blocks_of_a_class_are_interchangeable(a: BlockLayout, b: BlockLayout)
    requires
        cache_class(a) is Some,
        cache_class(a) == cache_class(b),
    ensures
        system_layout(a) == system_layout(b),
        system_layout(a).size >= a.size,
        system_layout(a).size >= b.size,
        system_layout(a).align >= a.align,
        system_layout(a).align >= b.align,
{
    lemma_boundaries();
    lemma_class_for_size(a.size as int);
    lemma_class_for_size(b.size as int);
}

/// A block that was cached on release is the next one handed out for its class, and taking it
/// out again leaves the cache as it was.
pub proof fn law_freed_block_is_reused(
    cached: Cached,
    limit: nat,
    address: usize,
    freed: BlockLayout,
    wanted: BlockLayout,
)
    requires
        cached.len() == NUM_CLASSES,
        cache_class(wanted) == cache_class(freed),
        dealloc_plan(cached, limit, freed) is Cached,
    ensures
        alloc_plan(cached_after_dealloc(cached, limit, address, freed), wanted)
            == AllocPlan::Cached(address),
        cached_after_alloc(cached_after_dealloc(cached, limit, address, freed), wanted) == cached,
{
    lemma_class_for_size(freed.size as int);
    let i = cache_class(freed)->Some_0;
    let after = cached_after_dealloc(cached, limit, address, freed);
    assert(after[i].drop_last() =~= cached[i]);
    assert(cached_after_alloc(after, wanted) =~= cached);
}

/// Oversize, tiny and over-aligned allocations leave every cache alone.
pub proof fn law_other_allocations_bypass_the_caches(
    cached: Cached,
    limit: nat,
    address: usize,
    layout: BlockLayout,
)
    requires
        layout.size > class_boundary(NUM_CLASSES - 1) || layout.size < MIN_BLOCK_SIZE
            || layout.align > MIN_BLOCK_ALIGN,
    ensures
        alloc_plan(cached, layout) == AllocPlan::System(layout),
        dealloc_plan(cached, limit, layout) == DeallocPlan::System(layout),
        cached_after_alloc(cached, layout) == cached,
        cached_after_dealloc(cached, limit, address, layout) == cached,
{
    lemma_boundaries();
    lemma_class_for_size(layout.size as int);
}

/// The layout can use the cache of class `i`: it can hold a pointer, needs no more alignment than
/// one, and class `i` is the smallest that is large enough.
pub open spec fn caches_in(layout: BlockLayout, i: int) -> bool {
    &&& layout.size >= MIN_BLOCK_SIZE
    &&& layout.align <= MIN_BLOCK_ALIGN
    &&& 0 <= i < 8
    &&& layout.size <= class_boundary(i)
    &&& i > 0 ==> class_boundary(i - 1) < layout.size
}

proof fn lemma_caches_in(layout: BlockLayout, i: int)
    requires
        caches_in(layout, i),
    ensures
        cache_class(layout) == Some(i),
{
    lemma_boundaries();
    lemma_class_for_size(layout.size as int);
    let c = class_for_size(layout.size as int)->Some_0;
    if c < i {
        if c < i - 1 {
            lemma_boundaries_increase(c, i - 1);
        }
    } else if i < c {
        assert(class_boundary(i) < layout.size);
    }
}

/// An allocation takes the block that was cached last in its own class. If there is none, memory
/// of the class boundary comes from the system, whatever other classes have cached. No other
/// class is touched.
pub proof fn law_allocation_uses_its_own_class(cached: Cached, layout: BlockLayout, i: int)
    requires
        cached.len() == 8,
        caches_in(layout, i),
    ensures
        cached[i].len() > 0 ==> {
            &&& alloc_plan(cached, layout) == AllocPlan::Cached(cached[i][cached[i].len() - 1])
            &&& cached_after_alloc(cached, layout)[i] == cached[i].take(cached[i].len() - 1)
        },
        cached[i].len() == 0 ==> {
            &&& alloc_plan(cached, layout) matches AllocPlan::System(b) && b.size
                == class_boundary(i) && b.align == MIN_BLOCK_ALIGN
            &&& cached_after_alloc(cached, layout) == cached
        },
        cached_after_alloc(cached, layout).len() == 8,
        forall|j: int|
            0 <= j < 8 && j != i ==> #[trigger] cached_after_alloc(cached, layout)[j] == cached[j],
{
    lemma_boundaries();
    lemma_caches_in(layout, i);
}

/// A freed block is cached last in its own class as long as that holds fewer than the limit. If it
/// is full, the block goes back to the system with the class boundary. No other class is touched.
pub proof fn law_release_uses_its_own_class(
    cached: Cached,
    limit: nat,
    address: usize,
    layout: BlockLayout,
    i: int,
)
    requires
        cached.len() == 8,
        caches_in(layout, i),
    ensures
        cached[i].len() < limit ==> {
            &&& dealloc_plan(cached, limit, layout) is Cached
            &&& cached_after_dealloc(cached, limit, address, layout)[i] == cached[i].push(address)
        },
        cached[i].len() >= limit ==> {
            &&& dealloc_plan(cached, limit, layout) matches DeallocPlan::System(b) && b.size
                == class_boundary(i) && b.align == MIN_BLOCK_ALIGN
            &&& cached_after_dealloc(cached, limit, address, layout) == cached
        },
        cached_after_dealloc(cached, limit, address, layout).len() == 8,
        forall|j: int|
            0 <= j < 8 && j != i ==> #[trigger] cached_after_dealloc(
                cached,
                limit,
                address,
                layout,
            )[j] == cached[j],
{
    lemma_boundaries();
    lemma_caches_in(layout, i);
}

/// Every other layout, empty, tiny, over-aligned or above 64 MiB, goes to the system as it is and
/// leaves the caches alone.
pub proof fn law_other_layouts_go_to_the_system(
    cached: Cached,
    limit: nat,
    address: usize,
    layout: BlockLayout,
)
    requires
        layout.size < MIN_BLOCK_SIZE || layout.align > MIN_BLOCK_ALIGN || layout.size > 67108864,
    ensures
        alloc_plan(cached, layout) == AllocPlan::System(layout),
        cached_after_alloc(cached, layout) == cached,
        dealloc_plan(cached, limit, layout) == DeallocPlan::System(layout),
        cached_after_dealloc(cached, limit, address, layout) == cached,
        system_layout(layout) == layout,
{
    lemma_boundaries();
    lemma_class_for_size(layout.size as int);
}

/// The blocks behind the cached addresses, of the given sizes, are at least as large as the
/// boundary of the class that caches them.
pub open spec fn backed(cached: Cached, size_of: spec_fn(usize) -> nat) -> bool {
    &&& cached.len() == 8
    &&& forall|i: int, k: int|
        0 <= i < 8 && 0 <= k < cached[i].len() ==> size_of(#[trigger] cached[i][k])
            >= class_boundary(i)
}

/// As long as the caches are backed, a block that is handed out is at least as large as what was
/// asked for, and the caches stay backed.
pub proof fn law_handed_out_blocks_are_large_enough(
    cached: Cached,
    layout: BlockLayout,
    size_of: spec_fn(usize) -> nat,
)
    requires
        backed(cached, size_of),
    ensures
        alloc_plan(cached, layout) matches AllocPlan::Cached(a) ==> size_of(a) >= layout.size,
        alloc_plan(cached, layout) matches AllocPlan::System(b) ==> b.size >= layout.size
            && b.align >= layout.align,
        backed(cached_after_alloc(cached, layout), size_of),
{
    lemma_boundaries();
    lemma_class_for_size(layout.size as int);
    if let Some(i) = cache_class(layout) {
        let after = cached_after_alloc(cached, layout);
        if cached[i].len() > 0 {
            assert(size_of(cached[i][cached[i].len() - 1]) >= class_boundary(i));
        }
        assert forall|j: int, k: int| 0 <= j < 8 && 0 <= k < after[j].len() implies size_of(
            #[trigger] after[j][k],
        ) >= class_boundary(j) by {
            assert(after[j][k] == cached[j][k]);
        }
    }
}

/// A block that an allocation got, from the system or from a cache, and that is freed with the same
/// layout later keeps the caches backed: whatever is cached can serve every request of its class.
pub proof fn law_freed_blocks_keep_the_caches_backed(
    then: Cached,
    now: Cached,
    limit: nat,
    address: usize,
    layout: BlockLayout,
    size_of: spec_fn(usize) -> nat,
)
    requires
        backed(then, size_of),
        backed(now, size_of),
        match alloc_plan(then, layout) {
            AllocPlan::Cached(a) => a == address,
            AllocPlan::System(b) => size_of(address) == b.size,
        },
    ensures
        backed(cached_after_dealloc(now, limit, address, layout), size_of),
{
    lemma_boundaries();
    lemma_class_for_size(layout.size as int);
    if let Some(i) = cache_class(layout) {
        let after = cached_after_dealloc(now, limit, address, layout);
        if then[i].len() > 0 {
            assert(size_of(then[i][then[i].len() - 1]) >= class_boundary(i));
        }
        assert forall|j: int, k: int| 0 <= j < 8 && 0 <= k < after[j].len() implies size_of(
            #[trigger] after[j][k],
        ) >= class_boundary(j) by {
            if k < now[j].len() {
                assert(after[j][k] == now[j][k]);
            }
        }
    }
}

/// An address that an allocation hands out was cached, in one class, and is not cached any more in
/// that place; an allocation from the system hands out none.
pub proof fn law_cached_blocks_are_handed_out_once(cached: Cached, layout: BlockLayout)
    requires
        cached.len() == 8,
    ensures
        alloc_plan(cached, layout) matches AllocPlan::Cached(a) ==> exists|i: int|
            {
                &&& caches_in(layout, i)
                &&& cached[i].len() > 0
                &&& a == cached[i][cached[i].len() - 1]
                &&& #[trigger] cached_after_alloc(cached, layout)[i].len() == cached[i].len() - 1
            },
        alloc_plan(cached, layout) is System ==> cached_after_alloc(cached, layout) == cached,
{
    lemma_boundaries();
    lemma_class_for_size(layout.size as int);
    if let AllocPlan::Cached(a) = alloc_plan(cached, layout) {
        let i = cache_class(layout)->Some_0;
        if i > 0 {
            assert(class_boundary(i - 1) < layout.size);
        }
        assert(caches_in(layout, i));
        assert(cached_after_alloc(cached, layout)[i].len() == cached[i].len() - 1);
    }
}

/// A class is found for every size from one byte to 64 MiB, the smallest that is large enough; and
/// for no other.
pub proof fn law_global_class(size: int)
    requires
        0 <= size,
    ensures
        global_class(size) is Some <==> 0 < size <= 67108864,
        global_class(size) matches Some(i) ==> {
            &&& 0 <= i < 8
            &&& size <= class_boundary(i)
            &&& i > 0 ==> class_boundary(i - 1) < size
        },
{
    lemma_boundaries();
    lemma_class_for_size(size);
}

/// A cached block has the size and the alignment of a pointer at least.
pub proof fn law_cached_blocks_can_hold_a_pointer()
    ensures
        MIN_BLOCK_SIZE * 8 == usize::BITS,
        MIN_BLOCK_ALIGN * 8 == usize::BITS,
{
}

} // verus!
