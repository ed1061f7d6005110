//! Per-thread block caches.

use vstd::prelude::*;

use crate::block::{capacities, Block};
use crate::routing::{class_boundary, NUM_CLASSES};
use crate::size_class::{all_storable, SizeClass};

verus! {

/// The smaller of two numbers.
pub open spec fn min(a: int, b: int) -> int {
    if a <= b {
        a
    } else {
        b
    }
}

/// What a thread's cache holds, block by block only as capacities.
#[verifier::ext_equal]
pub struct TlsView {
    /// The owner.
    pub pool_id: u64,
    /// Most blocks per class.
    pub limit: nat,
    /// The cached capacities of every class, oldest first.
    pub caches: Seq<Seq<nat>>,
}

/// Eight empty classes.
pub open spec fn no_blocks() -> Seq<Seq<nat>> {
    Seq::new(NUM_CLASSES as nat, |i: int| Seq::<nat>::empty())
}

/// The blocks that `batch` blocks popped one by one from the end of `cache` become when they are
/// appended to a queue: at most `room` of them, last one first.
pub open spec fn spilled<T>(cache: Seq<T>, batch: int, room: int) -> Seq<T> {
    Seq::new(
        min(min(batch, cache.len() as int), room) as nat,
        |k: int| cache[cache.len() - 1 - k],
    )
}

/// What stays in `cache` after that. When the room runs out before the batch does, the block that
/// found no room is dropped.
pub open spec fn after_spill<T>(cache: Seq<T>, batch: int, room: int) -> Seq<T> {
    let wanted = min(batch, cache.len() as int);
    cache.take(cache.len() - min(wanted, room + 1))
}

/// A thread's block caches, one per size class, for one pool at a time.
pub struct TlsState {
    /// Which pool owns the caches; zero before the first use.
    pub pool_id: u64,
    /// One cache per size class.
    pub caches: [Vec<Block>; 8],
    /// Most blocks per class.
    pub limit: usize,
}

impl View for TlsState {
    type V = TlsView;

    open spec fn view(&self) -> TlsView {
        TlsView {
            pool_id: self.pool_id,
            limit: self.limit as nat,
            caches: Seq::new(NUM_CLASSES as nat, |i: int| capacities(self.caches[i]@)),
        }
    }
}

impl TlsState {
    /// Every cached block is empty and offers the boundary of its class.
    pub open spec fn wf(&self) -> bool {
        forall|i: int|
            0 <= i < NUM_CLASSES ==> all_storable(
                (#[trigger] self.caches[i])@,
                class_boundary(i),
            )
    }

    /// Creates a state that belongs to no pool and caches nothing.
    pub fn new() -> (tls: TlsState)
        ensures
            tls.wf(),
            tls@ == (TlsView { pool_id: 0, limit: 0, caches: no_blocks() }),
    {
        let tls = TlsState {
            pool_id: 0,
            caches: [
                Vec::new(),
                Vec::new(),
                Vec::new(),
                Vec::new(),
                Vec::new(),
                Vec::new(),
                Vec::new(),
                Vec::new(),
            ],
            limit: 0,
        };
        assert(tls@.caches =~~= no_blocks());
        tls
    }

    /// Whether the caches belong to the given pool.
    pub fn belongs_to(&self, pool_id: u64) -> (b: bool)
        ensures
            b == (self.pool_id == pool_id),
    {
        self.pool_id == pool_id
    }

    /// Hands the caches to a pool. What another pool cached is dropped; what the same pool cached
    /// stays.
    pub fn init_for(&mut self, pool_id: u64, limit: usize)
        requires
            old(self).wf(),
        ensures
            final(self).wf(),
            final(self)@ == (TlsView {
                pool_id,
                limit: limit as nat,
                caches: if old(self).pool_id == pool_id {
                    old(self)@.caches
                } else {
                    no_blocks()
                },
            }),
            old(self).pool_id == pool_id ==> final(self).caches == old(self).caches,
    {
        if self.pool_id != pool_id {
            let mut i: usize = 0;
            while i < NUM_CLASSES
                invariant
                    i <= NUM_CLASSES,
                    self.wf(),
                    self.pool_id == old(self).pool_id,
                    forall|k: int| 0 <= k < i ==> (#[trigger] self.caches[k])@.len() == 0,
                decreases NUM_CLASSES - i,
            {
                self.caches[i].clear();
                i = i + 1;
            }
            assert(self@.caches =~~= no_blocks());
        }
        self.pool_id = pool_id;
        self.limit = limit;
        assert(old(self).pool_id == pool_id ==> self@.caches =~~= old(self)@.caches);
        assert(old(self).pool_id != pool_id ==> self@.caches =~~= no_blocks());
    }

    /// Magazine-style refill: moves up to `batch` blocks from the shared class, oldest first,
    /// onto this thread's cache. Returns how many were moved.
    pub fn batch_refill(
        &mut self,
        class_idx: usize,
        class: &mut SizeClass,
        batch: usize,
    ) -> (moved: usize)
        requires
            old(self).wf(),
            class_idx < NUM_CLASSES,
            old(class).wf(),
            old(class).boundary() == class_boundary(class_idx as int),
        ensures
            final(self).wf(),
            final(class).wf(),
            final(class).boundary() == old(class).boundary(),
            final(class).limit() == old(class).limit(),
            moved == min(batch as int, old(class).blocks().len() as int),
            final(class).blocks() == old(class).blocks().skip(moved as int),
            final(self).pool_id == old(self).pool_id,
            final(self).limit == old(self).limit,
            final(self).caches[class_idx as int]@ == old(self).caches[class_idx as int]@ + old(
                class,
            ).blocks().take(moved as int),
            forall|j: int|
                0 <= j < NUM_CLASSES && j != class_idx ==> #[trigger] final(self).caches[j] == old(
                    self,
                ).caches[j],
    {
        let mut moved: usize = 0;
        assert(class.blocks() =~= old(class).blocks().skip(0));
        let ghost own = self.caches[class_idx as int]@;
        assert(own =~= own + class.blocks().take(0));
        while moved < batch
            invariant_except_break
                moved <= old(class).blocks().len(),
            invariant
                self.wf(),
                class_idx < NUM_CLASSES,
                class.wf(),
                class.boundary() == class_boundary(class_idx as int),
                class.boundary() == old(class).boundary(),
                class.limit() == old(class).limit(),
                moved <= batch,
                moved <= old(class).blocks().len(),
                class.blocks() == old(class).blocks().skip(moved as int),
                self.pool_id == old(self).pool_id,
                self.limit == old(self).limit,
                self.caches[class_idx as int]@ == old(self).caches[class_idx as int]@ + old(
                    class,
                ).blocks().take(moved as int),
                forall|j: int|
                    0 <= j < NUM_CLASSES && j != class_idx ==> #[trigger] self.caches[j] == old(
                        self,
                    ).caches[j],
            ensures
                moved == min(batch as int, old(class).blocks().len() as int),
            decreases batch - moved,
        {
            match class.pop() {
                Some(buf) => {
                    let ghost before = self.caches[class_idx as int]@;
                    self.caches[class_idx].push(buf);
                    moved = moved + 1;
                    proof {
                        assert(buf == old(class).blocks()[moved - 1]);
                        assert(class.blocks() =~= old(class).blocks().skip(moved as int));
                        assert(self.caches[class_idx as int]@ == before.push(buf));
                        assert(before.push(buf) =~= old(self).caches[class_idx as int]@ + old(
                            class,
                        ).blocks().take(moved as int));
                    }
                },
                None => {
                    break;
                },
            }
        }
        moved
    }

    /// Refills the cache of a class and takes out the block that is then on top.
    pub fn refill(&mut self, class_idx: usize, class: &mut SizeClass, batch: usize) -> (block:
        Option<Block>)
        requires
            old(self).wf(),
            class_idx < NUM_CLASSES,
            old(class).wf(),
            old(class).boundary() == class_boundary(class_idx as int),
        ensures
            final(self).wf(),
            final(class).wf(),
            final(class).boundary() == old(class).boundary(),
            final(class).limit() == old(class).limit(),
            final(self).pool_id == old(self).pool_id,
            final(self).limit == old(self).limit,
            forall|j: int|
                0 <= j < NUM_CLASSES && j != class_idx ==> #[trigger] final(self).caches[j] == old(
                    self,
                ).caches[j],
            ({
                let moved = min(batch as int, old(class).blocks().len() as int);
                let filled = old(self).caches[class_idx as int]@ + old(class).blocks().take(moved);
                &&& final(class).blocks() == old(class).blocks().skip(moved)
                &&& match block {
                    Some(b) => {
                        &&& moved > 0
                        &&& b == filled.last()
                        &&& b.storable(class_boundary(class_idx as int))
                        &&& final(self).caches[class_idx as int]@ == filled.drop_last()
                    },
                    None => moved == 0 && final(self).caches[class_idx as int]@ == filled,
                }
            }),
    {
        let moved: usize = self.batch_refill(class_idx, class, batch);
        if moved == 0 {
            return None;
        }
        let ghost filled = self.caches[class_idx as int]@;
        assert(all_storable(filled, class_boundary(class_idx as int)));
        self.caches[class_idx].pop()
    }

    /// Magazine-style spill: moves up to `batch` blocks from the top of this thread's cache back
    /// to the shared class. A block that finds the class full is dropped and ends the transfer.
    pub fn batch_spill(&mut self, class_idx: usize, class: &mut SizeClass, batch: usize)
        requires
            old(self).wf(),
            class_idx < NUM_CLASSES,
            old(class).wf(),
            old(class).boundary() == class_boundary(class_idx as int),
        ensures
            final(self).wf(),
            final(class).wf(),
            final(class).boundary() == old(class).boundary(),
            final(class).limit() == old(class).limit(),
            final(self).pool_id == old(self).pool_id,
            final(self).limit == old(self).limit,
            forall|j: int|
                0 <= j < NUM_CLASSES && j != class_idx ==> #[trigger] final(self).caches[j] == old(
                    self,
                ).caches[j],
            ({
                let cache = old(self).caches[class_idx as int]@;
                let room = old(class).limit() - old(class).blocks().len();
                &&& final(class).blocks() == old(class).blocks() + spilled(
                    cache,
                    batch as int,
                    room,
                )
                &&& final(self).caches[class_idx as int]@ == after_spill(cache, batch as int, room)
            }),
    {
        let ghost cache = self.caches[class_idx as int]@;
        let ghost room = class.limit() - class.blocks().len();
        let mut done: usize = 0;
        assert(class.blocks() =~= class.blocks() + spilled(cache, 0, room));
        assert(cache =~= cache.take(cache.len() as int));
        while done < batch
            invariant_except_break
                done <= min(cache.len() as int, room),
                class.blocks() == old(class).blocks() + spilled(cache, done as int, room),
                self.caches[class_idx as int]@ == cache.take(cache.len() - done),
            invariant
                self.wf(),
                class_idx < NUM_CLASSES,
                class.wf(),
                cache == old(self).caches[class_idx as int]@,
                room == old(class).limit() - old(class).blocks().len(),
                class.boundary() == class_boundary(class_idx as int),
                class.boundary() == old(class).boundary(),
                class.limit() == old(class).limit(),
                self.pool_id == old(self).pool_id,
                self.limit == old(self).limit,
                done <= batch,
                room >= 0,
                forall|j: int|
                    0 <= j < NUM_CLASSES && j != class_idx ==> #[trigger] self.caches[j] == old(
                        self,
                    ).caches[j],
            ensures
                class.blocks() == old(class).blocks() + spilled(cache, batch as int, room),
                self.caches[class_idx as int]@ == after_spill(cache, batch as int, room),
            decreases batch - done,
        {
            let ghost before = self.caches[class_idx as int]@;
            assert(all_storable(before, class_boundary(class_idx as int)));
            match self.caches[class_idx].pop() {
                Some(buf) => {
                    assert(buf == before.last());
                    assert(before.last().storable(class_boundary(class_idx as int)));
                    assert(self.caches[class_idx as int]@ =~= cache.take(cache.len() - done - 1));
                    assert(all_storable(
                        self.caches[class_idx as int]@,
                        class_boundary(class_idx as int),
                    ));
                    let ghost queued = class.blocks();
                    if class.push(buf).is_err() {
                        assert(done == room);
                        assert(spilled(cache, batch as int, room) =~= spilled(
                            cache,
                            done as int,
                            room,
                        ));
                        assert(after_spill(cache, batch as int, room) =~= cache.take(
                            cache.len() - done - 1,
                        ));
                        break;
                    }
                    done = done + 1;
                    assert(class.blocks() =~= old(class).blocks() + spilled(
                        cache,
                        done as int,
                        room,
                    ));
                },
                None => {
                    assert(done == cache.len());
                    assert(spilled(cache, batch as int, room) =~= spilled(
                        cache,
                        done as int,
                        room,
                    ));
                    assert(after_spill(cache, batch as int, room) =~= cache.take(0));
                    break;
                },
            }
        }
    }
}

/// The smaller of two numbers is one of them, and exceeds neither.
pub proof fn law_min(a: int, b: int)
    ensures
        min(a, b) <= a,
        min(a, b) <= b,
        min(a, b) == a || min(a, b) == b,
{
}

} // verus!
