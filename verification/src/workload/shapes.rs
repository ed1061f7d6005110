//! The requests of every workload, one by one.

use vstd::prelude::*;

use crate::routing::{class_boundary, lemma_boundaries};
use crate::workload::checkpoint::{
    checkpoint_events, cycles, embedding_events, head_events, layer_events, layers_events,
};
use crate::workload::file_pipeline::{chunks_events, files_bytes, files_events, FileType};
use crate::workload::network::{
    connection_bytes, connection_events, exchange_events, packet_size_spec, share, PACKET_SIZES,
};
use crate::workload::stress::{
    burst_events, chaos_events, chaos_held_events, chaos_size_spec, chaos_state, chaos_step_events,
    eviction_events, eviction_round_events, lemma_cycles_len, mixed_events, mixed_size_spec,
    next_random_spec, thrash_events, HUGE_SIZES, LARGE_SIZES, MEDIUM_SIZES, SMALL_SIZES,
};
use crate::workload::trace::{cycle, gives, held, nested, takes, Event};

verus! {

/// The requests of the basic patterns.
pub proof fn law_patterns(a: nat, b: nat, n: nat, ago: nat, k: int)
    requires
        0 <= k < n,
    ensures
        cycle(a).len() == 2,
        cycle(a)[0] == Event::Take(a),
        cycle(a)[1] == (Event::Give { size: a, ago: 1 }),
        nested(a, b).len() == 4,
        nested(a, b)[0] == Event::Take(a),
        nested(a, b)[1] == Event::Take(b),
        nested(a, b)[2] == (Event::Give { size: b, ago: 1 }),
        nested(a, b)[3] == (Event::Give { size: a, ago: 3 }),
        takes(a, n).len() == n,
        takes(a, n)[k] == Event::Take(a),
        gives(a, n, ago).len() == n,
        gives(a, n, ago)[k] == (Event::Give { size: a, ago }),
        held(a, n).len() == 2 * n,
        held(a, n)[k] == Event::Take(a),
        held(a, n)[n + k] == (Event::Give { size: a, ago: n }),
{
}

/// Every size of a table is twice the one before it.
pub proof fn law_size_tables(i: int)
    requires
        0 < i < 4,
    ensures
        SMALL_SIZES[0] == 64,
        SMALL_SIZES[i] == 2 * SMALL_SIZES[i - 1],
        MEDIUM_SIZES[0] == 4096,
        MEDIUM_SIZES[i] == 2 * MEDIUM_SIZES[i - 1],
        LARGE_SIZES[0] == 65536,
        LARGE_SIZES[i] == 2 * LARGE_SIZES[i - 1],
        HUGE_SIZES[0] == 1048576,
        i < 3 ==> HUGE_SIZES[i] == 2 * HUGE_SIZES[i - 1],
{
}

/// The kinds of files, their positions and their chunks.
pub proof fn law_file_kinds(kind: FileType, i: int)
    requires
        0 <= i < 5,
    ensures
        FileType::at(kind.index()) == kind,
        FileType::at(i).index() == i,
        0 <= kind.index() < 5,
        FileType::SmallText.index() == 0,
        FileType::MediumJson.index() == 1,
        FileType::LargeImage.index() == 2,
        FileType::VideoChunk.index() == 3,
        FileType::Database.index() == 4,
{
}

/// A chunk is read and written: two buffers in use at once.
pub proof fn law_chunks(size: nat, n: int, c: int, r: int)
    requires
        0 <= c < n,
        0 <= r < 4,
    ensures
        chunks_events(size, n).len() == 4 * n,
        chunks_events(size, n)[4 * c + r] == nested(size, size)[r],
    decreases n,
{
    lemma_chunks_len(size, n - 1);
    if c < n - 1 {
        law_chunks(size, n - 1, c, r);
    }
}

proof fn lemma_chunks_len(size: nat, n: int)
    requires
        0 <= n,
    ensures
        chunks_events(size, n).len() == 4 * n,
    decreases n,
{
    if n > 0 {
        lemma_chunks_len(size, n - 1);
    }
}

/// Each file has fifty chunks of the size of its kind, the kinds in turn.
pub proof fn law_files(n: int, f: int, k: int)
    requires
        0 <= f < n,
        0 <= k < 200,
    ensures
        files_events(n).len() == 200 * n,
        files_events(n)[200 * f + k] == chunks_events(class_boundary(f % 5) as nat, 50)[k],
    decreases n,
{
    lemma_files_len(n - 1);
    lemma_chunks_len(class_boundary((n - 1) % 5) as nat, 50);
    if f < n - 1 {
        law_files(n - 1, f, k);
    }
}

proof fn lemma_files_len(n: int)
    requires
        0 <= n,
    ensures
        files_events(n).len() == 200 * n,
    decreases n,
{
    if n > 0 {
        lemma_files_len(n - 1);
        lemma_chunks_len(class_boundary((n - 1) % 5) as nat, 50);
    }
}

/// Each file moves its fifty chunks twice; five files in a row move one of every kind.
pub proof fn law_file_bytes(n: int)
    requires
        0 <= n,
    ensures
        files_bytes(0) == 0,
        files_bytes(n + 1) == files_bytes(n) + 100 * class_boundary(n % 5),
        files_bytes(n + 5) == files_bytes(n) + 139673600,
{
    lemma_boundaries();
    reveal_with_fuel(files_bytes, 6);
}

/// Buffers used one after the other.
pub proof fn law_cycles(size: nat, n: int, c: int, r: int)
    requires
        0 <= c < n,
        0 <= r < 2,
    ensures
        cycles(size, n).len() == 2 * n,
        cycles(size, n)[2 * c + r] == cycle(size)[r],
    decreases n,
{
    lemma_cycles_len(size, n - 1);
    if c < n - 1 {
        law_cycles(size, n - 1, c, r);
    }
}

/// A layer uses ten buffers of 4 KiB, four of 64 MiB, two of 256 MiB and two of 1 MiB, in this
/// order.
pub proof fn law_layer(c: int, r: int)
    requires
        0 <= c < 18,
        0 <= r < 2,
    ensures
        layer_events().len() == 36,
        c < 10 ==> layer_events()[2 * c + r] == cycle(4096)[r],
        10 <= c < 14 ==> layer_events()[2 * c + r] == cycle(67108864)[r],
        14 <= c < 16 ==> layer_events()[2 * c + r] == cycle(268435456)[r],
        16 <= c ==> layer_events()[2 * c + r] == cycle(1048576)[r],
{
    lemma_cycles_len(4096, 10);
    lemma_cycles_len(67108864, 4);
    lemma_cycles_len(268435456, 2);
    lemma_cycles_len(1048576, 2);
    if c < 10 {
        law_cycles(4096, 10, c, r);
    } else if c < 14 {
        law_cycles(67108864, 4, c - 10, r);
    } else if c < 16 {
        law_cycles(268435456, 2, c - 14, r);
    } else {
        law_cycles(1048576, 2, c - 16, r);
    }
}

/// Layers are loaded one after the other, all alike.
pub proof fn law_layers(n: int, l: int, k: int)
    requires
        0 <= l < n,
        0 <= k < 36,
    ensures
        layers_events(n).len() == 36 * n,
        layers_events(n)[36 * l + k] == layer_events()[k],
    decreases n,
{
    law_layer(0, 0);
    lemma_layers_len(n - 1);
    if l < n - 1 {
        law_layers(n - 1, l, k);
    }
}

proof fn lemma_layers_len(n: int)
    requires
        0 <= n,
    ensures
        layers_events(n).len() == 36 * n,
    decreases n,
{
    law_layer(0, 0);
    if n > 0 {
        lemma_layers_len(n - 1);
    }
}

/// A checkpoint starts with the embeddings, 128 MiB and 64 MiB, ends with the head, 1 MiB and
/// 128 MiB, and has the layers in between.
pub proof fn law_checkpoint(n: int, r: int, k: int)
    requires
        0 <= n,
        0 <= r < 4,
    ensures
        embedding_events() == nested(134217728, 67108864),
        head_events() == nested(1048576, 134217728),
        checkpoint_events(n).len() == 36 * n + 8,
        checkpoint_events(n)[r] == nested(134217728, 67108864)[r],
        0 <= k < 36 * n ==> checkpoint_events(n)[4 + k] == layers_events(n)[k],
        checkpoint_events(n)[36 * n + 4 + r] == nested(1048576, 134217728)[r],
{
    lemma_layers_len(n);
}

/// The size for a draw is the first one of the table whose share, with those before it, exceeds the
/// draw; a draw that exceeds all shares gives the first size.
pub proof fn law_packet_sizes(random: int, j: int)
    requires
        0 <= j < 7,
        0 <= random,
    ensures
        random < 50 ==> packet_size_spec(random) == 64,
        50 <= random < 70 ==> packet_size_spec(random) == 512,
        70 <= random < 80 ==> packet_size_spec(random) == 1024,
        80 <= random < 90 ==> packet_size_spec(random) == 4096,
        90 <= random < 97 ==> packet_size_spec(random) == 16384,
        97 <= random < 99 ==> packet_size_spec(random) == 32768,
        random == 99 ==> packet_size_spec(random) == 65536,
        share(7) == 100,
        share(j) <= random < share(j + 1) ==> packet_size_spec(random) == PACKET_SIZES[j].0,
        random >= 100 ==> packet_size_spec(random) == 64,
        share(j + 1) == share(j) + PACKET_SIZES[j].1,
{
    reveal_with_fuel(share, 8);
}

/// Each exchange takes a buffer for the request and one for the response, and gives them back, the
/// response first.
pub proof fn law_connection(draws: Seq<(usize, usize)>, c: int, r: int)
    requires
        0 <= c < draws.len(),
        0 <= r < 4,
    ensures
        connection_events(draws).len() == 4 * draws.len(),
        connection_events(draws)[4 * c + r] == nested(
            packet_size_spec(draws[c].0 as int) as nat,
            packet_size_spec(draws[c].1 as int) as nat,
        )[r],
    decreases draws.len(),
{
    lemma_connection_len(draws.drop_last());
    if c < draws.len() - 1 {
        law_connection(draws.drop_last(), c, r);
        assert(draws.drop_last()[c] == draws[c]);
    }
}

proof fn lemma_connection_len(draws: Seq<(usize, usize)>)
    ensures
        connection_events(draws).len() == 4 * draws.len(),
    decreases draws.len(),
{
    if draws.len() > 0 {
        lemma_connection_len(draws.drop_last());
        assert(exchange_events(draws.last()).len() == 4);
    }
}

/// Each exchange moves the bytes of its request and of its response.
pub proof fn law_connection_bytes(draws: Seq<(usize, usize)>, draw: (usize, usize))
    ensures
        connection_bytes(Seq::empty()) == 0,
        connection_bytes(draws.push(draw)) == connection_bytes(draws) + packet_size_spec(
            draw.0 as int,
        ) + packet_size_spec(draw.1 as int),
{
    assert(draws.push(draw).drop_last() =~= draws);
}

/// A burst holds two hundred buffers of one medium size, the sizes in turn.
pub proof fn law_burst(round: int, k: int)
    requires
        0 <= round,
        0 <= k < 200,
    ensures
        burst_events(round).len() == 400,
        burst_events(round)[k] == Event::Take(MEDIUM_SIZES[round % 4] as nat),
        burst_events(round)[200 + k] == (Event::Give {
            size: MEDIUM_SIZES[round % 4] as nat,
            ago: 200,
        }),
{
}

/// Alternating sizes: two small and two large buffers per iteration, larger ones for odd threads.
pub proof fn law_thrashing(thread_id: int, n: int, c: int, r: int)
    requires
        0 <= thread_id,
        0 <= c < n,
        0 <= r < 2,
    ensures
        thrash_events(thread_id, n).len() == 8 * n,
        ({
            let (a, b): (nat, nat) = if thread_id % 2 == 0 {
                (4096, 65536)
            } else {
                (16384, 262144)
            };
            &&& thrash_events(thread_id, n)[8 * c + r] == cycle(a)[r]
            &&& thrash_events(thread_id, n)[8 * c + 2 + r] == cycle(b)[r]
            &&& thrash_events(thread_id, n)[8 * c + 4 + r] == cycle(a)[r]
            &&& thrash_events(thread_id, n)[8 * c + 6 + r] == cycle(b)[r]
        }),
    decreases n,
{
    lemma_thrash_len(thread_id, n - 1);
    if c < n - 1 {
        law_thrashing(thread_id, n - 1, c, r);
    }
}

proof fn lemma_thrash_len(thread_id: int, n: int)
    requires
        0 <= n,
    ensures
        thrash_events(thread_id, n).len() == 8 * n,
    decreases n,
{
    if n > 0 {
        lemma_thrash_len(thread_id, n - 1);
    }
}

/// The mixed phase uses one buffer per iteration.
pub proof fn law_mixing(seed: int, n: int, c: int, r: int)
    requires
        0 <= c < n,
        0 <= r < 2,
    ensures
        mixed_events(seed, n).len() == 2 * n,
        mixed_events(seed, n)[2 * c + r] == cycle(mixed_size_spec(seed, c) as nat)[r],
    decreases n,
{
    lemma_mixed_len(seed, n - 1);
    if c < n - 1 {
        law_mixing(seed, n - 1, c, r);
    }
}

proof fn lemma_mixed_len(seed: int, n: int)
    requires
        0 <= n,
    ensures
        mixed_events(seed, n).len() == 2 * n,
    decreases n,
{
    if n > 0 {
        lemma_mixed_len(seed, n - 1);
    }
}

/// The mixed phase goes through the four tables in turn, each by a stride of its own for every
/// seed, and repeats after twelve iterations.
pub proof fn law_mixed_sizes(seed: int, i: int)
    requires
        0 <= seed,
        0 <= i,
    ensures
        mixed_size_spec(seed, i + 12) == mixed_size_spec(seed, i),
        (seed + i) % 4 == 0 ==> mixed_size_spec(seed, i) == SMALL_SIZES[(7 * seed + i) % 4],
        (seed + i) % 4 == 1 ==> mixed_size_spec(seed, i) == MEDIUM_SIZES[(11 * seed + i) % 4],
        (seed + i) % 4 == 2 ==> mixed_size_spec(seed, i) == LARGE_SIZES[(13 * seed + i) % 4],
        (seed + i) % 4 == 3 ==> mixed_size_spec(seed, i) == HUGE_SIZES[(17 * seed + i) % 3],
{
}

/// A round of the eviction phase: a hundred large buffers are taken, the sizes in turn; the second
/// fifty come back; every fifth round uses ten buffers of 1 MiB; then the first fifty come back.
pub proof fn law_eviction_round(round: int, k: int, j: int)
    requires
        0 <= round,
        0 <= k < 50,
        0 <= j < 20,
    ensures
        ({
            let events = eviction_round_events(round);
            let extra: int = if round % 5 == 0 {
                20
            } else {
                0
            };
            &&& events.len() == 200 + extra
            &&& events[k] == Event::Take(LARGE_SIZES[k % 4] as nat)
            &&& events[50 + k] == Event::Take(LARGE_SIZES[(50 + k) % 4] as nat)
            &&& events[100 + k] == (Event::Give {
                size: LARGE_SIZES[(50 + k) % 4] as nat,
                ago: 50,
            })
            &&& round % 5 == 0 ==> events[150 + j] == cycle(1048576)[j % 2]
            &&& events[150 + extra + k] == (Event::Give {
                size: LARGE_SIZES[k % 4] as nat,
                ago: (150 + extra) as nat,
            })
        }),
{
    lemma_cycles_len(1048576, 10);
    lemma_cycles_len(1048576, 0);
    law_cycles(1048576, 10, j / 2, j % 2);
}

/// The rounds of the eviction phase follow one another.
pub proof fn law_eviction_rounds(n: int)
    requires
        0 <= n,
    ensures
        eviction_events(0) == Seq::<Event>::empty(),
        eviction_events(n + 1) == eviction_events(n) + eviction_round_events(n),
{
}

/// The pseudo-random numbers form a linear congruential sequence.
pub proof fn law_pseudo_random(state: usize)
    ensures
        next_random_spec(state) == (state * 1103515245 + 12345) % (usize::MAX + 1),
{
    let m = usize::MAX + 1;
    let x = state * 1103515245;
    let y = state.wrapping_mul(1103515245);
    assert(0 <= x) by (nonlinear_arith)
        requires
            x == state * 1103515245,
            0 <= state,
    ;
    assert(y == x % m);
    vstd::arithmetic::div_mod::lemma_add_mod_noop(x, 12345, m);
    vstd::arithmetic::div_mod::lemma_add_mod_noop(x % m, 12345, m);
    vstd::arithmetic::div_mod::lemma_mod_twice(x, m);
}

/// Of the numbers by their third byte and up, modulo twenty, eight give small buffers, seven medium
/// ones, four large ones and one huge ones.
pub proof fn law_chaos_sizes(random: usize)
    ensures
        ({
            let category = (random >> 16) as int % 20;
            let pick = (random >> 8) as int;
            &&& category < 8 ==> chaos_size_spec(random) == SMALL_SIZES[pick % 4]
            &&& 8 <= category < 15 ==> chaos_size_spec(random) == MEDIUM_SIZES[pick % 4]
            &&& 15 <= category < 19 ==> chaos_size_spec(random) == LARGE_SIZES[pick % 4]
            &&& category == 19 ==> chaos_size_spec(random) == HUGE_SIZES[pick % 3]
        }),
{
}

/// A step of the last phase uses one buffer; every tenth number holds five of half the size
/// meanwhile.
pub proof fn law_chaos_step(random: usize, k: int)
    requires
        0 <= k < 5,
    ensures
        ({
            let events = chaos_step_events(random);
            let size = chaos_size_spec(random) as nat;
            let inner: int = if random % 10 == 0 {
                10
            } else {
                0
            };
            &&& events.len() == inner + 2
            &&& events[0] == Event::Take(size)
            &&& random % 10 == 0 ==> events[1 + k] == Event::Take(size / 2)
            &&& random % 10 == 0 ==> events[6 + k] == (Event::Give { size: size / 2, ago: 5 })
            &&& events[inner + 1] == (Event::Give { size, ago: (inner + 1) as nat })
        }),
{
    assert(chaos_held_events(random).len() == (if random % 10 == 0 {
        10int
    } else {
        0
    }));
}

/// The steps of the last phase follow one another, each by the next number of the sequence, which a
/// thread starts by its own number.
pub proof fn law_chaos(thread_id: usize, n: int)
    requires
        0 <= n,
    ensures
        chaos_state(thread_id, 0) == next_random_spec(thread_id),
        chaos_state(thread_id, n + 1) == next_random_spec(chaos_state(thread_id, n)),
        chaos_events(thread_id, 0) == Seq::<Event>::empty(),
        chaos_events(thread_id, n + 1) == chaos_events(thread_id, n) + chaos_step_events(
            chaos_state(thread_id, n + 1),
        ),
{
}

} // verus!
