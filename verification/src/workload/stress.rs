//! Workloads that are hard on the pool: bursts, alternating sizes, more buffers than it keeps.

use vstd::prelude::*;

use crate::allocator::Allocator;
use crate::block::zeros;
use crate::buffer::PooledBuffer;
use crate::pool::ZeroPool;
use crate::tls::TlsState;
use crate::workload::checkpoint::{cycles, use_repeatedly};
use crate::workload::touch::{mark_ends, with_ends_marked};
use crate::workload::trace::{
    brought_back, cycle, did, follows, follows_at, give, give_all, handed_out, held, hold_many,
    lemma_did, lemma_did_both, lemma_did_nothing, take, use_once, worked, Event, Step, Trace,
};

verus! {

/// Buffers in one burst.
pub const BURST_SIZE: usize = 200;

/// Bursts in the burst phase.
pub const BURST_ROUNDS: usize = 10;

/// Iterations of the phases without rounds.
pub const THRASH_ITERATIONS: usize = 50000;

/// Rounds of the eviction phase.
pub const EVICTION_ROUNDS: usize = 20;

/// Small buffers.
pub const SMALL_SIZES: [usize; 4] = [64, 128, 256, 512];

/// Medium buffers.
pub const MEDIUM_SIZES: [usize; 4] = [4096, 8192, 16384, 32768];

/// Large buffers.
pub const LARGE_SIZES: [usize; 4] = [65536, 131072, 262144, 524288];

/// Huge buffers.
pub const HUGE_SIZES: [usize; 3] = [1048576, 2097152, 4194304];

/// The phases of the stress test.
#[derive(Debug, Clone, Copy, PartialEq, Eq, Structural)]
pub enum StressPhase {
    /// Sudden spikes in demand.
    BurstAllocations,
    /// Alternating sizes.
    CacheThrashing,
    /// All sizes in turn.
    MixedSizes,
    /// More buffers at once than the pool keeps.
    EvictionPressure,
    /// Pseudo-random sizes.
    RandomChaos,
}

impl StressPhase {
    /// The phase at a position.
    pub open spec fn at(index: int) -> StressPhase {
        if index == 0 {
            StressPhase::BurstAllocations
        } else if index == 1 {
            StressPhase::CacheThrashing
        } else if index == 2 {
            StressPhase::MixedSizes
        } else if index == 3 {
            StressPhase::EvictionPressure
        } else {
            StressPhase::RandomChaos
        }
    }

    /// The name of the phase.
    pub fn name(&self) -> (name: &'static str)
        ensures
            name@ == match *self {
                StressPhase::BurstAllocations => "Burst Allocations"@,
                StressPhase::CacheThrashing => "Cache Thrashing"@,
                StressPhase::MixedSizes => "Mixed Sizes"@,
                StressPhase::EvictionPressure => "Eviction Pressure"@,
                StressPhase::RandomChaos => "Random Chaos"@,
            },
    {
        match self {
            StressPhase::BurstAllocations => "Burst Allocations",
            StressPhase::CacheThrashing => "Cache Thrashing",
            StressPhase::MixedSizes => "Mixed Sizes",
            StressPhase::EvictionPressure => "Eviction Pressure",
            StressPhase::RandomChaos => "Random Chaos",
        }
    }

    /// All phases, in the order in which they run.
    pub fn all() -> (phases: [StressPhase; 5])
        ensures
            forall|i: int| 0 <= i < 5 ==> #[trigger] phases[i] == StressPhase::at(i),
    {
        [
            StressPhase::BurstAllocations,
            StressPhase::CacheThrashing,
            StressPhase::MixedSizes,
            StressPhase::EvictionPressure,
            StressPhase::RandomChaos,
        ]
    }
}

/// The requests of one burst.
pub open spec fn burst_events(round: int) -> Seq<Event> {
    held(MEDIUM_SIZES[round % 4] as nat, BURST_SIZE as nat)
}

/// One burst: all its buffers are taken before the first is given back.
pub fn burst_round<A: Allocator>(
    pool: &mut ZeroPool<A>,
    tls: &mut TlsState,
    trace: &mut Trace,
    round: usize,
)
    requires
        old(pool).wf(),
        old(tls).wf(),
    ensures
        worked(*old(pool), *old(tls), *old(trace), *final(pool), *final(tls), *final(trace)),
        did(*old(trace), *final(trace), burst_events(round as int)),
{
    let size: usize = MEDIUM_SIZES[round % 4];
    assert(size <= 32768);
    hold_many(pool, tls, trace, size, BURST_SIZE);
}

/// The two sizes that a thread alternates between.
pub open spec fn thrash_sizes(thread_id: int) -> (nat, nat) {
    if thread_id % 2 == 0 {
        (4096, 65536)
    } else {
        (16384, 262144)
    }
}

/// The requests of `n` iterations of alternating sizes.
pub open spec fn thrash_events(thread_id: int, n: int) -> Seq<Event>
    decreases n,
{
    if n <= 0 {
        Seq::empty()
    } else {
        let (a, b) = thrash_sizes(thread_id);
        thrash_events(thread_id, n - 1) + (cycle(a) + cycle(b) + cycle(a) + cycle(b))
    }
}

/// Alternates between a small and a large size.
pub fn cache_thrashing<A: Allocator>(
    pool: &mut ZeroPool<A>,
    tls: &mut TlsState,
    trace: &mut Trace,
    thread_id: usize,
    iterations: usize,
)
    requires
        old(pool).wf(),
        old(tls).wf(),
    ensures
        worked(*old(pool), *old(tls), *old(trace), *final(pool), *final(tls), *final(trace)),
        did(*old(trace), *final(trace), thrash_events(thread_id as int, iterations as int)),
{
    let pattern: [usize; 4] = if thread_id % 2 == 0 {
        [4096, 65536, 4096, 65536]
    } else {
        [16384, 262144, 16384, 262144]
    };
    let mut done: usize = 0;
    proof {
        lemma_did_nothing(*trace);
    }
    while done < iterations
        invariant
            done <= iterations,
            worked(*old(pool), *old(tls), *old(trace), *pool, *tls, *trace),
            pattern[0] == thrash_sizes(thread_id as int).0,
            pattern[1] == thrash_sizes(thread_id as int).1,
            pattern[2] == thrash_sizes(thread_id as int).0,
            pattern[3] == thrash_sizes(thread_id as int).1,
            did(*old(trace), *trace, thrash_events(thread_id as int, done as int)),
        decreases iterations - done,
    {
        let ghost t0 = *trace;
        use_once(pool, tls, trace, pattern[0]);
        let ghost t1 = *trace;
        use_once(pool, tls, trace, pattern[1]);
        let ghost t2 = *trace;
        use_once(pool, tls, trace, pattern[2]);
        let ghost t3 = *trace;
        use_once(pool, tls, trace, pattern[3]);
        proof {
            let (a, b) = thrash_sizes(thread_id as int);
            lemma_did_both(t0, t1, t2, cycle(a), cycle(b));
            lemma_did_both(t0, t2, t3, cycle(a) + cycle(b), cycle(a));
            lemma_did_both(t0, t3, *trace, cycle(a) + cycle(b) + cycle(a), cycle(b));
            lemma_did_both(
                *old(trace),
                t0,
                *trace,
                thrash_events(thread_id as int, done as int),
                cycle(a) + cycle(b) + cycle(a) + cycle(b),
            );
        }
        done = done + 1;
    }
}

/// The size in iteration `i` of the mixed phase: the four tables in turn, each with a stride of
/// its own.
pub open spec fn mixed_size_spec(seed: int, i: int) -> usize {
    let category = (seed + i) % 4;
    if category == 0 {
        SMALL_SIZES[(seed * 7 + i) % 4]
    } else if category == 1 {
        MEDIUM_SIZES[(seed * 11 + i) % 4]
    } else if category == 2 {
        LARGE_SIZES[(seed * 13 + i) % 4]
    } else {
        HUGE_SIZES[(seed * 17 + i) % 3]
    }
}

/// Picks the size for iteration `i` of the mixed phase.
pub fn mixed_size(seed: usize, i: usize) -> (size: usize)
    requires
        seed * 17 + i <= usize::MAX,
    ensures
        size == mixed_size_spec(seed as int, i as int),
        size <= 4194304,
{
    let category: usize = (seed + i) % 4;
    let size: usize = if category == 0 {
        SMALL_SIZES[(seed * 7 + i) % 4]
    } else if category == 1 {
        MEDIUM_SIZES[(seed * 11 + i) % 4]
    } else if category == 2 {
        LARGE_SIZES[(seed * 13 + i) % 4]
    } else {
        HUGE_SIZES[(seed * 17 + i) % 3]
    };
    size
}

/// The requests of `n` iterations of mixed sizes.
pub open spec fn mixed_events(seed: int, n: int) -> Seq<Event>
    decreases n,
{
    if n <= 0 {
        Seq::empty()
    } else {
        mixed_events(seed, n - 1) + cycle(mixed_size_spec(seed, n - 1) as nat)
    }
}

/// Goes through all size tables.
pub fn mixed_sizes<A: Allocator>(
    pool: &mut ZeroPool<A>,
    tls: &mut TlsState,
    trace: &mut Trace,
    thread_id: usize,
    iterations: usize,
)
    requires
        old(pool).wf(),
        old(tls).wf(),
        thread_id * 17 + iterations <= usize::MAX,
    ensures
        worked(*old(pool), *old(tls), *old(trace), *final(pool), *final(tls), *final(trace)),
        did(*old(trace), *final(trace), mixed_events(thread_id as int, iterations as int)),
{
    let mut i: usize = 0;
    proof {
        lemma_did_nothing(*trace);
    }
    while i < iterations
        invariant
            i <= iterations,
            thread_id * 17 + iterations <= usize::MAX,
            worked(*old(pool), *old(tls), *old(trace), *pool, *tls, *trace),
            did(*old(trace), *trace, mixed_events(thread_id as int, i as int)),
        decreases iterations - i,
    {
        let ghost before = *trace;
        use_once(pool, tls, trace, mixed_size(thread_id, i));
        proof {
            lemma_did_both(
                *old(trace),
                before,
                *trace,
                mixed_events(thread_id as int, i as int),
                cycle(mixed_size_spec(thread_id as int, i as int) as nat),
            );
        }
        i = i + 1;
    }
}

/// The first `n` large buffers taken, the large sizes in turn.
pub open spec fn large_takes(n: nat) -> Seq<Event> {
    Seq::new(n, |i: int| Event::Take(LARGE_SIZES[i % 4] as nat))
}

/// Large buffers `from..to` given back, the large sizes in turn, each at the same distance.
pub open spec fn large_gives(from: int, to: int, ago: nat) -> Seq<Event> {
    Seq::new(
        (to - from) as nat,
        |i: int| Event::Give { size: LARGE_SIZES[(from + i) % 4] as nat, ago },
    )
}

/// How many huge buffers a round of the eviction phase uses.
pub open spec fn huge_uses(round: int) -> int {
    if round % 5 == 0 {
        10
    } else {
        0
    }
}

/// The requests of one round of the eviction phase: a hundred large buffers are taken, the second
/// half is given back, every fifth round uses ten huge buffers, and the first half is given back.
pub open spec fn eviction_round_events(round: int) -> Seq<Event> {
    large_takes(100) + large_gives(50, 100, 50) + cycles(HUGE_SIZES[0] as nat, huge_uses(round))
        + large_gives(0, 50, (150 + 2 * huge_uses(round)) as nat)
}

/// The requests of `n` rounds of the eviction phase.
pub open spec fn eviction_events(n: int) -> Seq<Event>
    decreases n,
{
    if n <= 0 {
        Seq::empty()
    } else {
        eviction_events(n - 1) + eviction_round_events(n - 1)
    }
}

/// Takes a hundred large buffers, the large sizes in turn, and marks both ends of each.
fn take_large<A: Allocator>(
    pool: &mut ZeroPool<A>,
    tls: &mut TlsState,
    trace: &mut Trace,
) -> (buffers: Vec<PooledBuffer>)
    requires
        old(pool).wf(),
        old(tls).wf(),
    ensures
        worked(*old(pool), *old(tls), *old(trace), *final(pool), *final(tls), *final(trace)),
        final(trace)@ == old(trace)@ + handed_out(buffers@),
        buffers@.len() == 100,
        forall|k: int|
            0 <= k < 100 ==> (#[trigger] buffers@[k]).wf() && buffers@[k]@ == with_ends_marked(
                zeros(LARGE_SIZES[k % 4] as nat),
            ),
{
    let mut buffers: Vec<PooledBuffer> = Vec::new();
    assert(trace@ =~= old(trace)@ + handed_out(buffers@));
    while buffers.len() < 100
        invariant
            worked(*old(pool), *old(tls), *old(trace), *pool, *tls, *trace),
            buffers@.len() <= 100,
            trace@ == old(trace)@ + handed_out(buffers@),
            forall|k: int|
                0 <= k < buffers@.len() ==> (#[trigger] buffers@[k]).wf() && buffers@[k]@
                    == with_ends_marked(zeros(LARGE_SIZES[k % 4] as nat)),
        decreases 100 - buffers@.len(),
    {
        let size: usize = LARGE_SIZES[buffers.len() % 4];
        assert(size <= 524288);
        let mut buffer = take(pool, tls, trace, size);
        mark_ends(buffer.as_mut());
        buffers.push(buffer);
        assert(trace@ =~= old(trace)@ + handed_out(buffers@));
    }
    buffers
}

/// A round of the eviction phase follows its description.
proof fn lemma_eviction_round(bufs: Seq<PooledBuffer>, extra: Seq<Step>, round: int)
    requires
        bufs.len() == 100,
        forall|k: int| 0 <= k < 100 ==> (#[trigger] bufs[k])@.len() == LARGE_SIZES[k % 4],
        follows(extra, cycles(HUGE_SIZES[0] as nat, huge_uses(round))),
    ensures
        follows(
            handed_out(bufs) + brought_back(bufs.skip(50)) + extra + brought_back(bufs.take(50)),
            eviction_round_events(round),
        ),
{
    let n = 2 * huge_uses(round);
    lemma_cycles_len(HUGE_SIZES[0] as nat, huge_uses(round));
    let uses = cycles(HUGE_SIZES[0] as nat, huge_uses(round));
    let out = handed_out(bufs);
    let steps = out + brought_back(bufs.skip(50)) + extra + brought_back(bufs.take(50));
    let events = eviction_round_events(round);
    assert forall|k: int| 0 <= k < events.len() implies #[trigger] follows_at(steps, events, k) by {
        if k < 100 {
            assert(bufs[k]@.len() == LARGE_SIZES[k % 4]);
        } else if k < 150 {
            assert(bufs[k - 50]@.len() == LARGE_SIZES[(k - 50) % 4]);
            assert(steps[k - 50] == out[k - 50]);
            assert(bufs.skip(50)[k - 100] == bufs[k - 50]);
        } else if k < 150 + n {
            assert(follows_at(extra, uses, k - 150));
            assert(events[k] == uses[k - 150]);
        } else {
            let j = k - 150 - n;
            assert(bufs[j]@.len() == LARGE_SIZES[j % 4]);
            assert(steps[j] == out[j]);
            assert(bufs.take(50)[j] == bufs[j]);
        }
    }
}

/// Using a buffer takes two events.
pub proof fn lemma_cycles_len(size: nat, n: int)
    requires
        0 <= n,
    ensures
        cycles(size, n).len() == 2 * n,
    decreases n,
{
    if n > 0 {
        lemma_cycles_len(size, n - 1);
    }
}

/// One round of the eviction phase.
pub fn eviction_round<A: Allocator>(
    pool: &mut ZeroPool<A>,
    tls: &mut TlsState,
    trace: &mut Trace,
    round: usize,
)
    requires
        old(pool).wf(),
        old(tls).wf(),
    ensures
        worked(*old(pool), *old(tls), *old(trace), *final(pool), *final(tls), *final(trace)),
        did(*old(trace), *final(trace), eviction_round_events(round as int)),
{
    let mut buffers = take_large(pool, tls, trace);
    let ghost all = buffers@;
    let dropped = buffers.split_off(50);
    assert(dropped@ =~= all.skip(50));
    assert(buffers@ =~= all.take(50));
    give_all(pool, tls, trace, dropped);
    let ghost before = *trace;
    proof {
        lemma_did_nothing(before);
    }
    if round % 5 == 0 {
        use_repeatedly(pool, tls, trace, HUGE_SIZES[0], 10);
    }
    let ghost extra = trace@.skip(before@.len() as int);
    assert(trace@ =~= before@ + extra);
    give_all(pool, tls, trace, buffers);
    proof {
        let steps = handed_out(all) + brought_back(all.skip(50)) + extra + brought_back(
            all.take(50),
        );
        assert(trace@ =~= old(trace)@ + steps);
        lemma_eviction_round(all, extra, round as int);
        lemma_did(*old(trace), *trace, steps, eviction_round_events(round as int));
    }
}

/// Takes more buffers at once than the pool keeps, round after round.
pub fn eviction_pressure<A: Allocator>(
    pool: &mut ZeroPool<A>,
    tls: &mut TlsState,
    trace: &mut Trace,
    rounds: usize,
)
    requires
        old(pool).wf(),
        old(tls).wf(),
    ensures
        worked(*old(pool), *old(tls), *old(trace), *final(pool), *final(tls), *final(trace)),
        did(*old(trace), *final(trace), eviction_events(rounds as int)),
{
    let mut round: usize = 0;
    proof {
        lemma_did_nothing(*trace);
    }
    while round < rounds
        invariant
            round <= rounds,
            worked(*old(pool), *old(tls), *old(trace), *pool, *tls, *trace),
            did(*old(trace), *trace, eviction_events(round as int)),
        decreases rounds - round,
    {
        let ghost before = *trace;
        eviction_round(pool, tls, trace, round);
        proof {
            lemma_did_both(
                *old(trace),
                before,
                *trace,
                eviction_events(round as int),
                eviction_round_events(round as int),
            );
        }
        round = round + 1;
    }
}

/// The next pseudo-random number.
pub open spec fn next_random_spec(state: usize) -> usize {
    state.wrapping_mul(1103515245).wrapping_add(12345)
}

/// The next pseudo-random number of a linear congruential sequence.
pub fn next_random(state: usize) -> (next: usize)
    ensures
        next == next_random_spec(state),
{
    state.wrapping_mul(1103515245).wrapping_add(12345)
}

/// The size for a pseudo-random number: of twenty, eight are small, seven medium, four large and
/// one huge.
pub open spec fn chaos_size_spec(random: usize) -> usize {
    let category = (random >> 16) as int % 20;
    let pick = (random >> 8) as int;
    if category <= 7 {
        SMALL_SIZES[pick % 4]
    } else if category <= 14 {
        MEDIUM_SIZES[pick % 4]
    } else if category <= 18 {
        LARGE_SIZES[pick % 4]
    } else {
        HUGE_SIZES[pick % 3]
    }
}

/// Picks a size by a pseudo-random number.
pub fn chaos_size(random: usize) -> (size: usize)
    ensures
        size == chaos_size_spec(random),
        size <= 4194304,
{
    let category: usize = (random >> 16) % 20;
    let pick: usize = random >> 8;
    let size: usize = if category <= 7 {
        SMALL_SIZES[pick % 4]
    } else if category <= 14 {
        MEDIUM_SIZES[pick % 4]
    } else if category <= 18 {
        LARGE_SIZES[pick % 4]
    } else {
        HUGE_SIZES[pick % 3]
    };
    size
}

/// The requests for one pseudo-random number: one buffer, and for every tenth number five more of
/// half the size while the first is still in use.
pub open spec fn chaos_step_events(random: usize) -> Seq<Event> {
    let size = chaos_size_spec(random) as nat;
    let inner = chaos_held_events(random);
    seq![Event::Take(size)] + inner + seq![Event::Give { size, ago: inner.len() + 1 }]
}

/// The requests for what is held while the buffer of a pseudo-random number is in use.
pub open spec fn chaos_held_events(random: usize) -> Seq<Event> {
    if random % 10 == 0 {
        held(chaos_size_spec(random) as nat / 2, 5)
    } else {
        Seq::empty()
    }
}

/// The state of the sequence after `n` iterations of a thread.
pub open spec fn chaos_state(thread_id: usize, n: int) -> usize
    decreases n,
{
    if n <= 0 {
        next_random_spec(thread_id)
    } else {
        next_random_spec(chaos_state(thread_id, n - 1))
    }
}

/// The requests of `n` iterations of the last phase.
pub open spec fn chaos_events(thread_id: usize, n: int) -> Seq<Event>
    decreases n,
{
    if n <= 0 {
        Seq::empty()
    } else {
        chaos_events(thread_id, n - 1) + chaos_step_events(chaos_state(thread_id, n))
    }
}

/// One iteration of the last phase.
pub fn chaos_step<A: Allocator>(
    pool: &mut ZeroPool<A>,
    tls: &mut TlsState,
    trace: &mut Trace,
    random: usize,
)
    requires
        old(pool).wf(),
        old(tls).wf(),
    ensures
        worked(*old(pool), *old(tls), *old(trace), *final(pool), *final(tls), *final(trace)),
        did(*old(trace), *final(trace), chaos_step_events(random)),
{
    let size: usize = chaos_size(random);
    let mut buffer = take(pool, tls, trace, size);
    mark_ends(buffer.as_mut());
    let ghost cap = buffer.cap();
    let ghost before = *trace;
    proof {
        lemma_did_nothing(before);
    }
    if random % 10 == 0 {
        hold_many(pool, tls, trace, size / 2, 5);
    }
    let ghost inner = trace@.skip(before@.len() as int);
    assert(trace@ =~= before@ + inner);
    give(pool, tls, trace, buffer);
    proof {
        let n = size as nat;
        let first = seq![Step::Get { size: n, cap }];
        let last = seq![Step::Put { size: n, cap }];
        let steps = first + inner + last;
        let events = chaos_step_events(random);
        let held_events = chaos_held_events(random);
        assert(trace@ =~= old(trace)@ + steps);
        assert forall|k: int| 0 <= k < events.len() implies #[trigger] follows_at(
            steps,
            events,
            k,
        ) by {
            if 0 < k <= inner.len() {
                assert(follows_at(inner, held_events, k - 1));
                assert(events[k] == held_events[k - 1]);
            }
        }
        lemma_did(*old(trace), *trace, steps, events);
    }
}

/// Takes buffers of pseudo-random sizes.
pub fn random_chaos<A: Allocator>(
    pool: &mut ZeroPool<A>,
    tls: &mut TlsState,
    trace: &mut Trace,
    thread_id: usize,
    iterations: usize,
)
    requires
        old(pool).wf(),
        old(tls).wf(),
    ensures
        worked(*old(pool), *old(tls), *old(trace), *final(pool), *final(tls), *final(trace)),
        did(*old(trace), *final(trace), chaos_events(thread_id, iterations as int)),
{
    let mut pseudo_random: usize = next_random(thread_id);
    let mut done: usize = 0;
    proof {
        lemma_did_nothing(*trace);
    }
    while done < iterations
        invariant
            done <= iterations,
            worked(*old(pool), *old(tls), *old(trace), *pool, *tls, *trace),
            pseudo_random == chaos_state(thread_id, done as int),
            did(*old(trace), *trace, chaos_events(thread_id, done as int)),
        decreases iterations - done,
    {
        pseudo_random = next_random(pseudo_random);
        let ghost before = *trace;
        chaos_step(pool, tls, trace, pseudo_random);
        proof {
            lemma_did_both(
                *old(trace),
                before,
                *trace,
                chaos_events(thread_id, done as int),
                chaos_step_events(pseudo_random),
            );
        }
        done = done + 1;
    }
}

} // verus!
