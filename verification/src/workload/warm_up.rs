//! Filling the shared pool before a workload starts.

use vstd::prelude::*;

use crate::allocator::Allocator;
use crate::laws::law_pool_is_sound;
use crate::pool::ZeroPool;
use crate::routing::{
    class_boundary, class_for_size, lemma_boundaries, lemma_class_for_size, NUM_CLASSES,
};
use crate::tls::min;
use crate::workload::trace::same_configuration;

verus! {

/// A shared queue with up to `count` blocks added behind those it held, as far as the limit
/// allows, each of at least the boundary of the class.
pub open spec fn topped_up(
    before: Seq<nat>,
    after: Seq<nat>,
    count: int,
    limit: nat,
    boundary: int,
) -> bool {
    &&& after.len() == before.len() + min(count, limit - before.len())
    &&& before == after.take(before.len() as int)
    &&& forall|k: int| before.len() <= k < after.len() ==> #[trigger] after[k] >= boundary
}

/// Topping up twice is topping up once by the sum.
pub proof fn lemma_topped_up(
    a: Seq<nat>,
    b: Seq<nat>,
    c: Seq<nat>,
    m: int,
    n: int,
    limit: nat,
    boundary: int,
)
    requires
        0 <= m,
        0 <= n,
        a.len() <= limit,
        topped_up(a, b, m, limit, boundary),
        topped_up(b, c, n, limit, boundary),
    ensures
        topped_up(a, c, m + n, limit, boundary),
{
    assert(a =~= c.take(a.len() as int)) by {
        assert forall|k: int| 0 <= k < a.len() implies a[k] == c[k] by {
            assert(a[k] == b.take(a.len() as int)[k]);
            assert(b[k] == c.take(b.len() as int)[k]);
        }
    }
    assert forall|k: int| a.len() <= k < c.len() implies #[trigger] c[k] >= boundary by {
        if k < b.len() {
            assert(b[k] == c.take(b.len() as int)[k]);
        }
    }
}

/// Adds up to `count` fresh blocks to the shared class that serves `size`; a size that no class
/// serves does nothing.
pub fn top_up<A: Allocator>(pool: &mut ZeroPool<A>, count: usize, size: usize)
    requires
        old(pool).wf(),
    ensures
        final(pool).wf(),
        same_configuration(old(pool)@, final(pool)@),
        final(pool)@.counters == old(pool)@.counters,
        final(pool)@.shared.len() == NUM_CLASSES,
        match class_for_size(size as int) {
            None => final(pool)@.shared == old(pool)@.shared,
            Some(i) => {
                &&& topped_up(
                    old(pool)@.shared[i],
                    final(pool)@.shared[i],
                    count as int,
                    old(pool)@.max_buffers,
                    class_boundary(i),
                )
                &&& forall|j: int|
                    0 <= j < NUM_CLASSES && j != i ==> #[trigger] final(pool)@.shared[j] == old(
                        pool,
                    )@.shared[j]
            },
        },
{
    proof {
        lemma_class_for_size(size as int);
        lemma_boundaries();
        law_pool_is_sound(*pool);
    }
    pool.warm(count, size);
    proof {
        if let Some(i) = class_for_size(size as int) {
            let before = old(pool)@.shared[i];
            let after = pool@.shared[i];
            let added = after.skip(before.len() as int);
            assert(after == before + added);
            assert(before =~= after.take(before.len() as int));
            assert forall|k: int| before.len() <= k < after.len() implies #[trigger] after[k]
                >= class_boundary(i) by {
                assert(after[k] == added[k - before.len()]);
            }
        }
    }
}

/// A queue that was topped up starts with what it held, got as many blocks as asked for or as its
/// limit allows, and only such as its class can use.
pub proof fn law_topping_up_adds_blocks(
    before: Seq<nat>,
    after: Seq<nat>,
    count: int,
    limit: nat,
    boundary: int,
)
    requires
        topped_up(before, after, count, limit, boundary),
        0 <= count,
        before.len() <= limit,
    ensures
        before.len() <= after.len() <= limit,
        after.len() == before.len() + count || after.len() == limit && before.len() + count > limit,
        forall|k: int| 0 <= k < before.len() ==> #[trigger] after[k] == before[k],
        forall|k: int| before.len() <= k < after.len() ==> #[trigger] after[k] >= boundary,
{
    assert forall|k: int| 0 <= k < before.len() implies #[trigger] after[k] == before[k] by {
        assert(before[k] == after.take(before.len() as int)[k]);
    }
}

} // verus!
