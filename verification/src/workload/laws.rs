//! What holds of every workload: each buffer that it takes it gives back, once.

use vstd::prelude::*;

use crate::allocator::Allocator;
use crate::buffer::PooledBuffer;
use crate::model::{pool_after_alloc, pool_after_put, tls_after_alloc, tls_after_put, PoolView};
use crate::operations::keeps_configuration;
use crate::pool::{capacity_given, ZeroPool};
use crate::routing::class_boundary;
use crate::tls::{TlsState, TlsView};
use crate::workload::checkpoint::{
    checkpoint_events, cycles, embedding_events, head_events, layer_events, layers_events,
    ATTENTION_WEIGHT_SIZE, EMBEDDING_WEIGHT_SIZE, FFN_WEIGHT_SIZE, LAYER_NORM_SIZE,
    METADATA_ITEMS_PER_LAYER, METADATA_SIZE,
};
use crate::workload::file_pipeline::{chunks_events, files_events, FileType, CHUNKS_PER_FILE};
use crate::workload::network::{connection_events, exchange_events, packet_size_spec};
use crate::workload::stress::{
    burst_events, chaos_events, chaos_held_events, chaos_size_spec, chaos_state, chaos_step_events,
    eviction_events, eviction_round_events, huge_uses, lemma_cycles_len, mixed_events,
    mixed_size_spec, thrash_events, thrash_sizes, BURST_SIZE, HUGE_SIZES, MEDIUM_SIZES,
};
use crate::workload::trace::{
    brought_back, capacities_given, cycle, did, follows, follows_at, handed_out, held, nested,
    replay, worked, Event, Step, Trace,
};

verus! {

/// Event `g` gives back the buffer that event `k` took.
pub open spec fn closes(events: Seq<Event>, g: int, k: int) -> bool {
    &&& 0 <= k < g < events.len()
    &&& events[g] matches Event::Give { size, ago } && g - ago == k && events[k] == Event::Take(
        size,
    )
}

/// Every buffer that is given back was taken, and every buffer that is taken is given back
/// exactly once.
pub open spec fn pairs_up(events: Seq<Event>) -> bool {
    &&& forall|g: int|
        0 <= g < events.len() ==> (#[trigger] events[g] matches Event::Give { ago, .. } ==> closes(
            events,
            g,
            g - ago,
        ))
    &&& forall|k: int|
        0 <= k < events.len() && #[trigger] events[k] is Take ==> exists|g: int| #[trigger]
            closes(events, g, k)
    &&& forall|g: int, h: int, k: int| #[trigger]
        closes(events, g, k) && #[trigger] closes(events, h, k) ==> g == h
}

/// `back[k]` is where the buffer that step `k` hands out comes back, with the same size and the
/// same capacity; no two come back at once, and nothing else comes back.
pub open spec fn comes_back(steps: Seq<Step>, back: Seq<int>) -> bool {
    &&& back.len() == steps.len()
    &&& forall|k: int|
        0 <= k < steps.len() ==> (#[trigger] steps[k] matches Step::Get { size, cap } ==> {
            &&& k < back[k] < steps.len()
            &&& steps[back[k]] == (Step::Put { size, cap })
        })
    &&& forall|j: int, k: int|
        0 <= j < k < steps.len() && #[trigger] steps[j] is Get && #[trigger] steps[k] is Get
            ==> back[j] != back[k]
    &&& forall|g: int|
        0 <= g < steps.len() && #[trigger] steps[g] is Put ==> exists|k: int|
            0 <= k < g && steps[k] is Get && #[trigger] back[k] == g
}

/// The buffers that the pool gets back are those that it handed out, each of them once.
pub open spec fn all_come_back(steps: Seq<Step>) -> bool {
    exists|back: Seq<int>| #[trigger] comes_back(steps, back)
}

/// Steps that follow events which pair up bring back every buffer.
pub proof fn law_paired_buffers_come_back(steps: Seq<Step>, events: Seq<Event>)
    requires
        follows(steps, events),
        pairs_up(events),
    ensures
        all_come_back(steps),
{
    let back = Seq::new(steps.len(), |k: int| choose|g: int| #[trigger] closes(events, g, k));
    assert forall|k: int| 0 <= k < steps.len() && #[trigger] steps[k] is Get implies closes(
        events,
        back[k],
        k,
    ) && follows_at(steps, events, back[k]) by {
        assert(follows_at(steps, events, k));
        assert(events[k] is Take);
    }
    assert forall|j: int, k: int|
        0 <= j < k < steps.len() && #[trigger] steps[j] is Get && #[trigger] steps[k] is Get implies
        back[j] != back[k] by {
        assert(closes(events, back[j], j));
        assert(closes(events, back[k], k));
    }
    assert forall|g: int| 0 <= g < steps.len() && #[trigger] steps[g] is Put implies exists|k: int|
        0 <= k < g && steps[k] is Get && #[trigger] back[k] == g by {
        assert(follows_at(steps, events, g));
        let k = g - events[g]->ago;
        assert(closes(events, g, k));
        assert(follows_at(steps, events, k));
        assert(closes(events, back[k], k));
        assert(back[k] == g);
    }
    assert(comes_back(steps, back));
}

proof fn lemma_pairs_nothing()
    ensures
        pairs_up(Seq::<Event>::empty()),
{
}

proof fn lemma_pairs_both(a: Seq<Event>, b: Seq<Event>)
    requires
        pairs_up(a),
        pairs_up(b),
    ensures
        pairs_up(a + b),
{
    let all = a + b;
    let n = a.len();
    assert forall|g: int, k: int| #[trigger] closes(all, g, k) implies if g < n {
        closes(a, g, k)
    } else {
        closes(b, g - n, k - n)
    } by {
        if g < n {
            assert(all[g] == a[g] && all[k] == a[k]);
        } else {
            assert(all[g] == b[g - n]);
            assert(closes(b, g - n, g - n - b[g - n]->ago));
        }
    }
    assert forall|g: int| 0 <= g < all.len() implies (#[trigger] all[g] matches Event::Give {
        ago,
        ..
    } ==> closes(all, g, g - ago)) by {
        if g < n {
            assert(all[g] == a[g]);
        } else {
            assert(all[g] == b[g - n]);
        }
    }
    assert forall|k: int| 0 <= k < all.len() && #[trigger] all[k] is Take implies exists|g: int|
        #[trigger]
        closes(all, g, k) by {
        if k < n {
            assert(a[k] is Take);
            let g = choose|g: int| #[trigger] closes(a, g, k);
            assert(closes(all, g, k));
        } else {
            assert(b[k - n] is Take);
            let g = choose|g: int| #[trigger] closes(b, g, k - n);
            assert(closes(all, g + n, k));
        }
    }
}

proof fn lemma_cycle_pairs(size: nat)
    ensures
        pairs_up(cycle(size)),
{
    assert(closes(cycle(size), 1, 0));
}

proof fn lemma_cycles_pair(size: nat, n: int)
    ensures
        pairs_up(cycles(size, n)),
    decreases n,
{
    lemma_pairs_nothing();
    if n > 0 {
        lemma_cycles_pair(size, n - 1);
        lemma_cycle_pairs(size);
        lemma_pairs_both(cycles(size, n - 1), cycle(size));
    }
}

proof fn lemma_nested_pairs(first: nat, second: nat)
    ensures
        pairs_up(nested(first, second)),
{
    let events = nested(first, second);
    assert(closes(events, 3, 0));
    assert(closes(events, 2, 1));
}

proof fn lemma_held_pairs(size: nat, n: nat)
    ensures
        pairs_up(held(size, n)),
{
    let events = held(size, n);
    assert forall|k: int| 0 <= k < events.len() && #[trigger] events[k] is Take implies exists|
        g: int,
    | #[trigger]
        closes(events, g, k) by {
        assert(closes(events, k + n, k));
    }
}

proof fn lemma_chunks_pair(size: nat, n: int)
    ensures
        pairs_up(chunks_events(size, n)),
    decreases n,
{
    lemma_pairs_nothing();
    if n > 0 {
        lemma_chunks_pair(size, n - 1);
        lemma_nested_pairs(size, size);
        lemma_pairs_both(chunks_events(size, n - 1), nested(size, size));
    }
}

proof fn lemma_files_pair(n: int)
    ensures
        pairs_up(files_events(n)),
    decreases n,
{
    lemma_pairs_nothing();
    if n > 0 {
        let size = class_boundary(FileType::at((n - 1) % 5).index()) as nat;
        lemma_files_pair(n - 1);
        lemma_chunks_pair(size, CHUNKS_PER_FILE as int);
        lemma_pairs_both(files_events(n - 1), chunks_events(size, CHUNKS_PER_FILE as int));
    }
}

proof fn lemma_layer_pairs()
    ensures
        pairs_up(layer_events()),
{
    let a = cycles(METADATA_SIZE as nat, METADATA_ITEMS_PER_LAYER as int);
    let b = cycles(ATTENTION_WEIGHT_SIZE as nat, 4);
    let c = cycles(FFN_WEIGHT_SIZE as nat, 2);
    let d = cycles(LAYER_NORM_SIZE as nat, 2);
    lemma_cycles_pair(METADATA_SIZE as nat, METADATA_ITEMS_PER_LAYER as int);
    lemma_cycles_pair(ATTENTION_WEIGHT_SIZE as nat, 4);
    lemma_cycles_pair(FFN_WEIGHT_SIZE as nat, 2);
    lemma_cycles_pair(LAYER_NORM_SIZE as nat, 2);
    lemma_pairs_both(a, b);
    lemma_pairs_both(a + b, c);
    lemma_pairs_both(a + b + c, d);
}

proof fn lemma_layers_pair(n: int)
    ensures
        pairs_up(layers_events(n)),
    decreases n,
{
    lemma_pairs_nothing();
    if n > 0 {
        lemma_layers_pair(n - 1);
        lemma_layer_pairs();
        lemma_pairs_both(layers_events(n - 1), layer_events());
    }
}

proof fn lemma_connection_pairs(draws: Seq<(usize, usize)>)
    ensures
        pairs_up(connection_events(draws)),
    decreases draws.len(),
{
    lemma_pairs_nothing();
    if draws.len() > 0 {
        let last = draws.last();
        lemma_connection_pairs(draws.drop_last());
        lemma_nested_pairs(
            packet_size_spec(last.0 as int) as nat,
            packet_size_spec(last.1 as int) as nat,
        );
        lemma_pairs_both(connection_events(draws.drop_last()), exchange_events(last));
    }
}

proof fn lemma_thrash_pairs(thread_id: int, n: int)
    ensures
        pairs_up(thrash_events(thread_id, n)),
    decreases n,
{
    lemma_pairs_nothing();
    if n > 0 {
        let (a, b) = thrash_sizes(thread_id);
        lemma_thrash_pairs(thread_id, n - 1);
        lemma_cycle_pairs(a);
        lemma_cycle_pairs(b);
        lemma_pairs_both(cycle(a), cycle(b));
        lemma_pairs_both(cycle(a) + cycle(b), cycle(a));
        lemma_pairs_both(cycle(a) + cycle(b) + cycle(a), cycle(b));
        lemma_pairs_both(
            thrash_events(thread_id, n - 1),
            cycle(a) + cycle(b) + cycle(a) + cycle(b),
        );
    }
}

proof fn lemma_mixed_pairs(seed: int, n: int)
    ensures
        pairs_up(mixed_events(seed, n)),
    decreases n,
{
    lemma_pairs_nothing();
    if n > 0 {
        let size = mixed_size_spec(seed, n - 1) as nat;
        lemma_mixed_pairs(seed, n - 1);
        lemma_cycle_pairs(size);
        lemma_pairs_both(mixed_events(seed, n - 1), cycle(size));
    }
}

proof fn lemma_eviction_round_pairs(round: int)
    ensures
        pairs_up(eviction_round_events(round)),
{
    let n = 2 * huge_uses(round);
    let uses = cycles(HUGE_SIZES[0] as nat, huge_uses(round));
    let events = eviction_round_events(round);
    lemma_cycles_len(HUGE_SIZES[0] as nat, huge_uses(round));
    lemma_cycles_pair(HUGE_SIZES[0] as nat, huge_uses(round));
    assert forall|g: int| 150 <= g < 150 + n implies #[trigger] events[g] == uses[g - 150] by {}
    assert forall|g: int, k: int| #[trigger] closes(uses, g, k) implies closes(
        events,
        g + 150,
        k + 150,
    ) by {
        assert(events[g + 150] == uses[g] && events[k + 150] == uses[k]);
    }
    assert forall|g: int| 0 <= g < events.len() implies (#[trigger] events[g] matches Event::Give {
        ago,
        ..
    } ==> closes(events, g, g - ago)) by {
        if 150 <= g < 150 + n {
            assert(events[g] == uses[g - 150]);
            if let Event::Give { ago, .. } = events[g] {
                assert(closes(uses, g - 150, g - 150 - ago));
            }
        }
    }
    assert forall|k: int| 0 <= k < events.len() && #[trigger] events[k] is Take implies exists|
        g: int,
    | #[trigger]
        closes(events, g, k) by {
        if k < 50 {
            assert(closes(events, 150 + n + k, k));
        } else if k < 100 {
            assert(closes(events, k + 50, k));
        } else if 150 <= k < 150 + n {
            assert(uses[k - 150] is Take);
            let g = choose|g: int| #[trigger] closes(uses, g, k - 150);
            assert(closes(events, g + 150, k));
        }
    }
    assert forall|g: int, k: int| #[trigger] closes(events, g, k) implies {
        &&& 100 <= g < 150 ==> k == g - 50
        &&& 150 <= g < 150 + n ==> closes(uses, g - 150, k - 150)
        &&& 150 + n <= g ==> k == g - 150 - n
        &&& 100 <= g
    } by {
        if 150 <= g < 150 + n {
            assert(events[g] == uses[g - 150]);
            if let Event::Give { ago, .. } = events[g] {
                assert(closes(uses, g - 150, g - 150 - ago));
            }
        }
    }
}

proof fn lemma_eviction_pairs(n: int)
    ensures
        pairs_up(eviction_events(n)),
    decreases n,
{
    lemma_pairs_nothing();
    if n > 0 {
        lemma_eviction_pairs(n - 1);
        lemma_eviction_round_pairs(n - 1);
        lemma_pairs_both(eviction_events(n - 1), eviction_round_events(n - 1));
    }
}

proof fn lemma_chaos_step_pairs(random: usize)
    ensures
        pairs_up(chaos_step_events(random)),
{
    let inner = chaos_held_events(random);
    let events = chaos_step_events(random);
    lemma_pairs_nothing();
    lemma_held_pairs(chaos_size_spec(random) as nat / 2, 5);
    assert(pairs_up(inner));
    assert forall|g: int| 0 < g <= inner.len() implies #[trigger] events[g] == inner[g - 1] by {}
    assert forall|g: int| 0 <= g < events.len() implies (#[trigger] events[g] matches Event::Give {
        ago,
        ..
    } ==> closes(events, g, g - ago)) by {
        if 0 < g <= inner.len() {
            assert(events[g] == inner[g - 1]);
            if let Event::Give { ago, .. } = events[g] {
                assert(closes(inner, g - 1, g - 1 - ago));
            }
        }
    }
    assert forall|k: int| 0 <= k < events.len() && #[trigger] events[k] is Take implies exists|
        g: int,
    | #[trigger]
        closes(events, g, k) by {
        if k == 0 {
            assert(closes(events, inner.len() as int + 1, 0));
        } else if k <= inner.len() {
            assert(inner[k - 1] is Take);
            let g = choose|g: int| #[trigger] closes(inner, g, k - 1);
            assert(closes(events, g + 1, k));
        }
    }
    assert forall|g: int, k: int| #[trigger] closes(events, g, k) implies {
        ||| 0 < g <= inner.len() && closes(inner, g - 1, k - 1)
        ||| g == inner.len() + 1 && k == 0
    } by {
        if 0 < g <= inner.len() {
            assert(events[g] == inner[g - 1]);
            if let Event::Give { ago, .. } = events[g] {
                assert(closes(inner, g - 1, g - 1 - ago));
            }
        }
    }
}

proof fn lemma_chaos_pairs(thread_id: usize, n: int)
    ensures
        pairs_up(chaos_events(thread_id, n)),
    decreases n,
{
    lemma_pairs_nothing();
    if n > 0 {
        let random = chaos_state(thread_id, n);
        lemma_chaos_pairs(thread_id, n - 1);
        lemma_chaos_step_pairs(random);
        lemma_pairs_both(chaos_events(thread_id, n - 1), chaos_step_events(random));
    }
}

/// A run of the file pipeline gives back every buffer that it takes, once.
pub proof fn law_file_pipeline_returns_everything(steps: Seq<Step>, n: int)
    requires
        follows(steps, files_events(n)),
    ensures
        pairs_up(files_events(n)),
        all_come_back(steps),
{
    lemma_files_pair(n);
    law_paired_buffers_come_back(steps, files_events(n));
}

/// Loading a checkpoint gives back every buffer that it takes, once.
pub proof fn law_checkpoint_returns_everything(steps: Seq<Step>, layers: int)
    requires
        follows(steps, checkpoint_events(layers)),
    ensures
        pairs_up(checkpoint_events(layers)),
        all_come_back(steps),
{
    lemma_layers_pair(layers);
    lemma_nested_pairs(EMBEDDING_WEIGHT_SIZE as nat, EMBEDDING_WEIGHT_SIZE as nat / 2);
    lemma_nested_pairs(LAYER_NORM_SIZE as nat, EMBEDDING_WEIGHT_SIZE as nat);
    lemma_pairs_both(embedding_events(), layers_events(layers));
    lemma_pairs_both(embedding_events() + layers_events(layers), head_events());
    law_paired_buffers_come_back(steps, checkpoint_events(layers));
}

/// A connection gives back every buffer that it takes, once.
pub proof fn law_connection_returns_everything(steps: Seq<Step>, draws: Seq<(usize, usize)>)
    requires
        follows(steps, connection_events(draws)),
    ensures
        pairs_up(connection_events(draws)),
        all_come_back(steps),
{
    lemma_connection_pairs(draws);
    law_paired_buffers_come_back(steps, connection_events(draws));
}

/// Every phase of the stress test gives back every buffer that it takes, once.
pub proof fn law_stress_returns_everything(steps: Seq<Step>, thread_id: usize, n: int)
    requires
        follows(steps, burst_events(n)) || follows(steps, thrash_events(thread_id as int, n))
            || follows(steps, mixed_events(thread_id as int, n)) || follows(
            steps,
            eviction_events(n),
        ) || follows(steps, chaos_events(thread_id, n)),
    ensures
        pairs_up(burst_events(n)),
        pairs_up(thrash_events(thread_id as int, n)),
        pairs_up(mixed_events(thread_id as int, n)),
        pairs_up(eviction_events(n)),
        pairs_up(chaos_events(thread_id, n)),
        all_come_back(steps),
{
    let id = thread_id as int;
    lemma_held_pairs(MEDIUM_SIZES[n % 4] as nat, BURST_SIZE as nat);
    lemma_thrash_pairs(id, n);
    lemma_mixed_pairs(id, n);
    lemma_eviction_pairs(n);
    lemma_chaos_pairs(thread_id, n);
    if follows(steps, burst_events(n)) {
        law_paired_buffers_come_back(steps, burst_events(n));
    } else if follows(steps, thrash_events(id, n)) {
        law_paired_buffers_come_back(steps, thrash_events(id, n));
    } else if follows(steps, mixed_events(id, n)) {
        law_paired_buffers_come_back(steps, mixed_events(id, n));
    } else if follows(steps, eviction_events(n)) {
        law_paired_buffers_come_back(steps, eviction_events(n));
    } else {
        law_paired_buffers_come_back(steps, chaos_events(thread_id, n));
    }
}

/// What a workload did is the events of its description, one step for each: the steps from before
/// stay, and a buffer that comes back has the size and the capacity of the one that was handed out.
pub proof fn law_work_follows_its_description(
    before: Trace,
    after: Trace,
    events: Seq<Event>,
    k: int,
)
    requires
        did(before, after, events),
        0 <= k < events.len(),
    ensures
        after@.len() == before@.len() + events.len(),
        after@.take(before@.len() as int) == before@,
        ({
            let step = after@[before@.len() + k];
            match events[k] {
                Event::Take(size) => step is Get && step->Get_size == size,
                Event::Give { size, ago } => {
                    let taken = after@[before@.len() + k - ago];
                    &&& 0 < ago <= k
                    &&& taken is Get
                    &&& taken->Get_size == size
                    &&& step is Put
                    &&& step->Put_size == size
                    &&& step->Put_cap == taken->Get_cap
                },
            }
        }),
{
    let steps = after@.skip(before@.len() as int);
    assert(follows_at(steps, events, k));
    assert(steps[k] == after@[before@.len() + k]);
    if let Event::Give { ago, .. } = events[k] {
        assert(steps[k - ago] == after@[before@.len() + k - ago]);
    }
}

/// Work leaves pool and thread in order and the configuration as it was, and a trace that accounted
/// for both before accounts for both after.
pub proof fn law_work_is_accounted_for<A: Allocator>(
    pool0: ZeroPool<A>,
    tls0: TlsState,
    trace0: Trace,
    pool: ZeroPool<A>,
    tls: TlsState,
    trace: Trace,
)
    requires
        worked(pool0, tls0, trace0, pool, tls, trace),
        replay(trace0.start(), trace0@) == (pool0@, tls0@),
        capacities_given(pool0.state.allocator, trace0.start(), trace0@),
    ensures
        pool.wf(),
        tls.wf(),
        keeps_configuration(pool0@, pool@),
        replay(trace0.start(), trace@) == (pool@, tls@),
        capacities_given(pool.state.allocator, trace0.start(), trace@),
{
}

/// A trace is replayed step by step: a buffer that was handed out is a request of its size, and one
/// that came back is the return of its capacity.
pub proof fn law_replay(start: (PoolView, TlsView), steps: Seq<Step>, size: nat, cap: nat)
    ensures
        replay(start, Seq::empty()) == start,
        ({
            let (p, t) = replay(start, steps);
            &&& replay(start, steps.push(Step::Get { size, cap })) == (
                pool_after_alloc(p, t, size as int),
                tls_after_alloc(p, t, size as int),
            )
            &&& replay(start, steps.push(Step::Put { size, cap })) == (
                pool_after_put(p, t, cap),
                tls_after_put(p, t, cap),
            )
        }),
{
    assert(steps.push(Step::Get { size, cap }).drop_last() =~= steps);
    assert(steps.push(Step::Put { size, cap }).drop_last() =~= steps);
}

/// Every buffer that was handed out had a capacity that the pool gives at that point.
pub proof fn law_handed_out_capacities<A: Allocator>(
    allocator: A,
    start: (PoolView, TlsView),
    steps: Seq<Step>,
    size: nat,
    cap: nat,
)
    requires
        capacities_given(allocator, start, steps.push(Step::Get { size, cap })),
    ensures
        capacities_given(allocator, start, steps),
        ({
            let (p, t) = replay(start, steps);
            capacity_given(allocator, p, t, size as int, cap)
        }),
{
    assert(steps.push(Step::Get { size, cap }).drop_last() =~= steps);
}

/// The steps of a list of buffers are those of its buffers, in order.
pub proof fn law_lists_are_handled_in_order(bufs: Seq<PooledBuffer>, k: int)
    requires
        0 <= k < bufs.len(),
    ensures
        handed_out(bufs).len() == bufs.len(),
        handed_out(bufs)[k] == (Step::Get { size: bufs[k]@.len(), cap: bufs[k].cap() }),
        brought_back(bufs).len() == bufs.len(),
        brought_back(bufs)[k] == (Step::Put { size: bufs[k]@.len(), cap: bufs[k].cap() }),
{
}

} // verus!
