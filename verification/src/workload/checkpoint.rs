//! Loading of model checkpoints: small metadata between large tensors.

use vstd::prelude::*;

use crate::allocator::Allocator;
use crate::pool::ZeroPool;
use crate::routing::{
    law_boundaries_route_to_their_class, lemma_boundaries, lemma_class_for_size,
};
use crate::tls::TlsState;
use crate::workload::touch::mark_ends;
use crate::workload::trace::{
    cycle, did, give, lemma_did_both, lemma_did_nested, lemma_did_nothing, nested,
    same_configuration, take, use_once, worked, Event, Trace,
};
use crate::workload::warm_up::{top_up, topped_up};

verus! {

/// Transformer layers in a model.
pub const NUM_LAYERS: usize = 48;

/// Metadata items in a layer.
pub const METADATA_ITEMS_PER_LAYER: usize = 10;

/// Size of a metadata item.
pub const METADATA_SIZE: usize = 4096;

/// Size of the token embeddings.
pub const EMBEDDING_WEIGHT_SIZE: usize = 134217728;

/// Size of an attention matrix.
pub const ATTENTION_WEIGHT_SIZE: usize = 67108864;

/// Size of a feed-forward matrix.
pub const FFN_WEIGHT_SIZE: usize = 268435456;

/// Size of a layer norm.
pub const LAYER_NORM_SIZE: usize = 1048576;

/// `n` buffers of the same size, each used and given back before the next.
pub open spec fn cycles(size: nat, n: int) -> Seq<Event>
    decreases n,
{
    if n <= 0 {
        Seq::empty()
    } else {
        cycles(size, n - 1) + cycle(size)
    }
}

/// The requests for the embeddings: tokens, then positions of half the size.
pub open spec fn embedding_events() -> Seq<Event> {
    nested(EMBEDDING_WEIGHT_SIZE as nat, EMBEDDING_WEIGHT_SIZE as nat / 2)
}

/// The requests for one layer: metadata, four attention matrices, two feed-forward matrices and
/// two norms.
pub open spec fn layer_events() -> Seq<Event> {
    cycles(METADATA_SIZE as nat, METADATA_ITEMS_PER_LAYER as int) + cycles(
        ATTENTION_WEIGHT_SIZE as nat,
        4,
    ) + cycles(FFN_WEIGHT_SIZE as nat, 2) + cycles(LAYER_NORM_SIZE as nat, 2)
}

/// The requests for `n` layers.
pub open spec fn layers_events(n: int) -> Seq<Event>
    decreases n,
{
    if n <= 0 {
        Seq::empty()
    } else {
        layers_events(n - 1) + layer_events()
    }
}

/// The requests for the final norm and the output head.
pub open spec fn head_events() -> Seq<Event> {
    nested(LAYER_NORM_SIZE as nat, EMBEDDING_WEIGHT_SIZE as nat)
}

/// The requests for a model with `n` layers.
pub open spec fn checkpoint_events(n: int) -> Seq<Event> {
    embedding_events() + layers_events(n) + head_events()
}

/// Uses `n` buffers of the same size one after the other.
pub fn use_repeatedly<A: Allocator>(
    pool: &mut ZeroPool<A>,
    tls: &mut TlsState,
    trace: &mut Trace,
    size: usize,
    n: usize,
)
    requires
        old(pool).wf(),
        old(tls).wf(),
        size <= isize::MAX,
    ensures
        worked(*old(pool), *old(tls), *old(trace), *final(pool), *final(tls), *final(trace)),
        did(*old(trace), *final(trace), cycles(size as nat, n as int)),
{
    let mut done: usize = 0;
    proof {
        lemma_did_nothing(*trace);
    }
    while done < n
        invariant
            done <= n,
            size <= isize::MAX,
            worked(*old(pool), *old(tls), *old(trace), *pool, *tls, *trace),
            did(*old(trace), *trace, cycles(size as nat, done as int)),
        decreases n - done,
    {
        let ghost before = *trace;
        use_once(pool, tls, trace, size);
        proof {
            let n = size as nat;
            lemma_did_both(*old(trace), before, *trace, cycles(n, done as int), cycle(n));
        }
        done = done + 1;
    }
}

/// Uses two buffers at once.
fn use_nested<A: Allocator>(
    pool: &mut ZeroPool<A>,
    tls: &mut TlsState,
    trace: &mut Trace,
    first: usize,
    second: usize,
)
    requires
        old(pool).wf(),
        old(tls).wf(),
        first <= isize::MAX,
        second <= isize::MAX,
    ensures
        worked(*old(pool), *old(tls), *old(trace), *final(pool), *final(tls), *final(trace)),
        did(*old(trace), *final(trace), nested(first as nat, second as nat)),
{
    let mut outer = take(pool, tls, trace, first);
    mark_ends(outer.as_mut());
    let mut inner = take(pool, tls, trace, second);
    mark_ends(inner.as_mut());
    let ghost (outer_cap, inner_cap) = (outer.cap(), inner.cap());
    give(pool, tls, trace, inner);
    give(pool, tls, trace, outer);
    proof {
        lemma_did_nested(
            *old(trace),
            *trace,
            first as nat,
            second as nat,
            outer_cap,
            inner_cap,
        );
    }
}

/// Fills the shared pool with the common sizes. Sizes that no class serves are skipped.
pub fn preallocate_buffers<A: Allocator>(pool: &mut ZeroPool<A>)
    requires
        old(pool).wf(),
    ensures
        final(pool).wf(),
        same_configuration(old(pool)@, final(pool)@),
        final(pool)@.counters == old(pool)@.counters,
        final(pool)@.shared.len() == 8,
        topped_up(
            old(pool)@.shared[7],
            final(pool)@.shared[7],
            16,
            old(pool)@.max_buffers,
            ATTENTION_WEIGHT_SIZE as int,
        ),
        topped_up(
            old(pool)@.shared[0],
            final(pool)@.shared[0],
            32,
            old(pool)@.max_buffers,
            METADATA_SIZE as int,
        ),
        forall|i: int|
            0 < i < 7 ==> #[trigger] final(pool)@.shared[i] == old(pool)@.shared[i],
{
    proof {
        lemma_boundaries();
        lemma_class_for_size(EMBEDDING_WEIGHT_SIZE as int);
        lemma_class_for_size(FFN_WEIGHT_SIZE as int);
        law_boundaries_route_to_their_class(7);
        law_boundaries_route_to_their_class(0);
    }
    top_up(pool, 8, EMBEDDING_WEIGHT_SIZE);
    top_up(pool, 16, ATTENTION_WEIGHT_SIZE);
    top_up(pool, 16, FFN_WEIGHT_SIZE);
    top_up(pool, 32, METADATA_SIZE);
}

/// Loads the embedding weights.
pub fn load_embeddings<A: Allocator>(
    pool: &mut ZeroPool<A>,
    tls: &mut TlsState,
    trace: &mut Trace,
)
    requires
        old(pool).wf(),
        old(tls).wf(),
    ensures
        worked(*old(pool), *old(tls), *old(trace), *final(pool), *final(tls), *final(trace)),
        did(*old(trace), *final(trace), embedding_events()),
{
    use_nested(pool, tls, trace, EMBEDDING_WEIGHT_SIZE, EMBEDDING_WEIGHT_SIZE / 2);
}

/// Loads one transformer layer.
pub fn load_transformer_layer<A: Allocator>(
    pool: &mut ZeroPool<A>,
    tls: &mut TlsState,
    trace: &mut Trace,
)
    requires
        old(pool).wf(),
        old(tls).wf(),
    ensures
        worked(*old(pool), *old(tls), *old(trace), *final(pool), *final(tls), *final(trace)),
        did(*old(trace), *final(trace), layer_events()),
{
    use_repeatedly(pool, tls, trace, METADATA_SIZE, METADATA_ITEMS_PER_LAYER);
    let ghost t1 = *trace;
    use_repeatedly(pool, tls, trace, ATTENTION_WEIGHT_SIZE, 4);
    let ghost t2 = *trace;
    use_repeatedly(pool, tls, trace, FFN_WEIGHT_SIZE, 2);
    let ghost t3 = *trace;
    use_repeatedly(pool, tls, trace, LAYER_NORM_SIZE, 2);
    proof {
        let metadata = cycles(METADATA_SIZE as nat, METADATA_ITEMS_PER_LAYER as int);
        let attention = cycles(ATTENTION_WEIGHT_SIZE as nat, 4);
        let ffn = cycles(FFN_WEIGHT_SIZE as nat, 2);
        let norms = cycles(LAYER_NORM_SIZE as nat, 2);
        lemma_did_both(*old(trace), t1, t2, metadata, attention);
        lemma_did_both(*old(trace), t2, t3, metadata + attention, ffn);
        lemma_did_both(*old(trace), t3, *trace, metadata + attention + ffn, norms);
    }
}

/// Loads the final norm and the output head.
pub fn load_output_head<A: Allocator>(
    pool: &mut ZeroPool<A>,
    tls: &mut TlsState,
    trace: &mut Trace,
)
    requires
        old(pool).wf(),
        old(tls).wf(),
    ensures
        worked(*old(pool), *old(tls), *old(trace), *final(pool), *final(tls), *final(trace)),
        did(*old(trace), *final(trace), head_events()),
{
    use_nested(pool, tls, trace, LAYER_NORM_SIZE, EMBEDDING_WEIGHT_SIZE);
}

/// Loads a complete checkpoint with the given number of layers.
pub fn load_checkpoint<A: Allocator>(
    pool: &mut ZeroPool<A>,
    tls: &mut TlsState,
    trace: &mut Trace,
    layers: usize,
)
    requires
        old(pool).wf(),
        old(tls).wf(),
    ensures
        worked(*old(pool), *old(tls), *old(trace), *final(pool), *final(tls), *final(trace)),
        did(*old(trace), *final(trace), checkpoint_events(layers as int)),
{
    load_embeddings(pool, tls, trace);
    let mut done: usize = 0;
    assert(embedding_events() + layers_events(0) =~= embedding_events());
    while done < layers
        invariant
            done <= layers,
            worked(*old(pool), *old(tls), *old(trace), *pool, *tls, *trace),
            did(*old(trace), *trace, embedding_events() + layers_events(done as int)),
        decreases layers - done,
    {
        let ghost before = *trace;
        load_transformer_layer(pool, tls, trace);
        proof {
            let loaded = embedding_events() + layers_events(done as int);
            lemma_did_both(*old(trace), before, *trace, loaded, layer_events());
            assert(loaded + layer_events() =~= embedding_events() + layers_events(done + 1));
        }
        done = done + 1;
    }
    let ghost before = *trace;
    load_output_head(pool, tls, trace);
    proof {
        let loaded = embedding_events() + layers_events(layers as int);
        lemma_did_both(*old(trace), before, *trace, loaded, head_events());
    }
}

} // verus!
