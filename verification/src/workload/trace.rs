//! What a workload asks of the pool.
//!
//! A workload is described by events: buffers taken, and each of them given back at a certain
//! distance. The trace of a run holds the steps that the pool took, with the capacities of the
//! buffers; a run follows its description if every buffer that is given back is the one that was
//! taken.

use vstd::prelude::*;

use crate::allocator::Allocator;
use crate::block::zeros;
use crate::buffer::PooledBuffer;
use crate::model::{pool_after_alloc, pool_after_put, tls_after_alloc, tls_after_put, PoolView};
use crate::pool::{capacity_given, ZeroPool};
use crate::tls::{TlsState, TlsView};
use crate::workload::touch::{mark_ends, with_ends_marked};

verus! {

/// One request to the pool, as a workload describes it.
pub enum Event {
    /// A buffer of this many bytes is taken.
    Take(nat),
    /// A buffer is given back.
    Give {
        /// Its length.
        size: nat,
        /// How many events earlier it was taken.
        ago: nat,
    },
}

/// What the pool did for one request.
pub enum Step {
    /// A buffer was handed out.
    Get {
        /// Its length.
        size: nat,
        /// Its capacity.
        cap: nat,
    },
    /// A buffer came back.
    Put {
        /// Its length.
        size: nat,
        /// Its capacity.
        cap: nat,
    },
}

/// Step `k` is what event `k` asks for: a buffer of the size is handed out, or the very buffer
/// that was handed out `ago` steps earlier comes back, with its size and its capacity.
pub open spec fn follows_at(steps: Seq<Step>, events: Seq<Event>, k: int) -> bool {
    match events[k] {
        Event::Take(size) => steps[k] matches Step::Get { size: n, .. } && n == size,
        Event::Give { size, ago } => {
            &&& 0 < ago <= k
            &&& steps[k - ago] matches Step::Get { size: n, cap } && n == size && steps[k] == (
            Step::Put { size, cap })
        },
    }
}

/// The steps are those that the events ask for.
pub open spec fn follows(steps: Seq<Step>, events: Seq<Event>) -> bool {
    &&& steps.len() == events.len()
    &&& forall|k: int| 0 <= k < events.len() ==> #[trigger] follows_at(steps, events, k)
}

/// Pool and thread state after some steps.
pub open spec fn replay(start: (PoolView, TlsView), steps: Seq<Step>) -> (PoolView, TlsView)
    decreases steps.len(),
{
    if steps.len() == 0 {
        start
    } else {
        let (p, t) = replay(start, steps.drop_last());
        match steps.last() {
            Step::Get { size, .. } => (
                pool_after_alloc(p, t, size as int),
                tls_after_alloc(p, t, size as int),
            ),
            Step::Put { cap, .. } => (pool_after_put(p, t, cap), tls_after_put(p, t, cap)),
        }
    }
}

/// Every buffer that was handed out has a capacity that the pool gives in the state it was in.
pub open spec fn capacities_given<A: Allocator>(
    allocator: A,
    start: (PoolView, TlsView),
    steps: Seq<Step>,
) -> bool
    decreases steps.len(),
{
    if steps.len() == 0 {
        true
    } else {
        let (p, t) = replay(start, steps.drop_last());
        &&& capacities_given(allocator, start, steps.drop_last())
        &&& match steps.last() {
            Step::Get { size, cap } => capacity_given(allocator, p, t, size as int, cap),
            Step::Put { .. } => true,
        }
    }
}

/// The steps that the pool took so far. It exists for specifications and takes no space.
pub struct Trace {
    start: Ghost<(PoolView, TlsView)>,
    steps: Ghost<Seq<Step>>,
}

impl View for Trace {
    type V = Seq<Step>;

    closed spec fn view(&self) -> Seq<Step> {
        self.steps@
    }
}

impl Trace {
    /// The states in which the trace began.
    pub closed spec fn start(self) -> (PoolView, TlsView) {
        self.start@
    }

    /// The steps of the trace lead from where it began to this pool and this thread state, with
    /// capacities that the pool gives.
    pub open spec fn accounts_for<A: Allocator>(self, pool: ZeroPool<A>, tls: TlsState) -> bool {
        &&& replay(self.start(), self@) == (pool@, tls@)
        &&& capacities_given(pool.state.allocator, self.start(), self@)
    }

    /// Nothing has been asked of the pool yet.
    pub fn new<A: Allocator>(pool: &ZeroPool<A>, tls: &TlsState) -> (trace: Trace)
        ensures
            trace@ == Seq::<Step>::empty(),
            trace.start() == (pool@, tls@),
            trace.accounts_for(*pool, *tls),
    {
        Trace { start: Ghost((pool@, tls@)), steps: Ghost(Seq::empty()) }
    }
}

/// The steps between two traces of one run follow the events.
pub open spec fn did(before: Trace, after: Trace, events: Seq<Event>) -> bool {
    &&& before@.len() <= after@.len()
    &&& before@ == after@.take(before@.len() as int)
    &&& follows(after@.skip(before@.len() as int), events)
}

/// Doing nothing follows no events.
pub proof fn lemma_did_nothing(trace: Trace)
    ensures
        did(trace, trace, Seq::empty()),
{
    assert(trace@.take(trace@.len() as int) =~= trace@);
}

/// Doing one thing after another follows the events of both.
pub proof fn lemma_did_both(a: Trace, b: Trace, c: Trace, first: Seq<Event>, second: Seq<Event>)
    requires
        did(a, b, first),
        did(b, c, second),
    ensures
        did(a, c, first + second),
{
    let x = b@.skip(a@.len() as int);
    let y = c@.skip(b@.len() as int);
    let z = c@.skip(a@.len() as int);
    assert forall|k: int| 0 <= k < a@.len() implies a@[k] == c@[k] by {
        assert(a@[k] == b@.take(a@.len() as int)[k]);
        assert(b@[k] == c@.take(b@.len() as int)[k]);
    }
    assert(a@ =~= c@.take(a@.len() as int));
    assert forall|k: int| 0 <= k < x.len() implies x[k] == z[k] by {
        assert(b@[k + a@.len()] == c@.take(b@.len() as int)[k + a@.len()]);
    }
    assert(z =~= x + y);
    lemma_follows_both(x, y, first, second);
}

/// Steps in sequence follow events in sequence.
pub proof fn lemma_follows_both(x: Seq<Step>, y: Seq<Step>, first: Seq<Event>, second: Seq<Event>)
    requires
        follows(x, first),
        follows(y, second),
    ensures
        follows(x + y, first + second),
{
    let steps = x + y;
    let events = first + second;
    assert forall|k: int| 0 <= k < events.len() implies #[trigger] follows_at(steps, events, k) by {
        if k < first.len() {
            assert(follows_at(x, first, k));
        } else {
            assert(follows_at(y, second, k - first.len()));
        }
    }
}

/// A trace that was extended by some steps that follow the events.
pub proof fn lemma_did(before: Trace, after: Trace, steps: Seq<Step>, events: Seq<Event>)
    requires
        after@ == before@ + steps,
        follows(steps, events),
    ensures
        did(before, after, events),
{
    assert(after@.take(before@.len() as int) =~= before@);
    assert(after@.skip(before@.len() as int) =~= steps);
}

/// `n` buffers of the same size taken one after the other.
pub open spec fn takes(size: nat, n: nat) -> Seq<Event> {
    Seq::new(n, |i: int| Event::Take(size))
}

/// `n` buffers of the same size given back one after the other, each at the same distance.
pub open spec fn gives(size: nat, n: nat, ago: nat) -> Seq<Event> {
    Seq::new(n, |i: int| Event::Give { size, ago })
}

/// A buffer taken and given back at once.
pub open spec fn cycle(size: nat) -> Seq<Event> {
    seq![Event::Take(size), Event::Give { size, ago: 1 }]
}

/// Two buffers in use at once, the second given back first.
pub open spec fn nested(first: nat, second: nat) -> Seq<Event> {
    seq![
        Event::Take(first),
        Event::Take(second),
        Event::Give { size: second, ago: 1 },
        Event::Give { size: first, ago: 3 },
    ]
}

/// A trace that was extended by the use of two buffers at once.
pub proof fn lemma_did_nested(
    before: Trace,
    after: Trace,
    first: nat,
    second: nat,
    outer: nat,
    inner: nat,
)
    requires
        after@ == before@.push(Step::Get { size: first, cap: outer }).push(
            Step::Get { size: second, cap: inner },
        ).push(Step::Put { size: second, cap: inner }).push(Step::Put { size: first, cap: outer }),
    ensures
        did(before, after, nested(first, second)),
{
    let steps = seq![
        Step::Get { size: first, cap: outer },
        Step::Get { size: second, cap: inner },
        Step::Put { size: second, cap: inner },
        Step::Put { size: first, cap: outer },
    ];
    assert(after@ =~= before@ + steps);
    lemma_did(before, after, steps, nested(first, second));
}

/// `n` buffers of the same size held at once and given back in the order they were taken.
pub open spec fn held(size: nat, n: nat) -> Seq<Event> {
    takes(size, n) + gives(size, n, n)
}

/// Only the counters and the stored blocks differ.
pub open spec fn same_configuration(a: PoolView, b: PoolView) -> bool {
    b == (PoolView { counters: b.counters, shared: b.shared, ..a })
}

/// Pool and thread state are in order after some work, the pool is configured as before, and the
/// trace accounts for all that happened to both.
pub open spec fn worked<A: Allocator>(
    pool_before: ZeroPool<A>,
    tls_before: TlsState,
    trace_before: Trace,
    pool: ZeroPool<A>,
    tls: TlsState,
    trace: Trace,
) -> bool {
    &&& pool.wf()
    &&& tls.wf()
    &&& same_configuration(pool_before@, pool@)
    &&& pool.state.allocator == pool_before.state.allocator
    &&& trace.start() == trace_before.start()
    &&& trace_before.accounts_for(pool_before, tls_before) ==> trace.accounts_for(pool, tls)
}

/// Takes a buffer.
pub fn take<A: Allocator>(
    pool: &mut ZeroPool<A>,
    tls: &mut TlsState,
    trace: &mut Trace,
    size: usize,
) -> (buf: PooledBuffer)
    requires
        old(pool).wf(),
        old(tls).wf(),
        size <= isize::MAX,
    ensures
        worked(*old(pool), *old(tls), *old(trace), *final(pool), *final(tls), *final(trace)),
        final(trace)@ == old(trace)@.push(Step::Get { size: size as nat, cap: buf.cap() }),
        final(pool)@ == pool_after_alloc(old(pool)@, old(tls)@, size as int),
        final(tls)@ == tls_after_alloc(old(pool)@, old(tls)@, size as int),
        old(pool).gives_capacity(old(tls)@, size, buf.cap()),
        buf.wf(),
        buf@ == zeros(size as nat),
{
    let buf = pool.get(tls, size);
    let ghost step = Step::Get { size: size as nat, cap: buf.cap() };
    proof {
        trace.steps@ = trace.steps@.push(step);
        assert(trace@.drop_last() =~= old(trace)@);
    }
    buf
}

/// Gives a buffer back.
pub fn give<A: Allocator>(
    pool: &mut ZeroPool<A>,
    tls: &mut TlsState,
    trace: &mut Trace,
    buf: PooledBuffer,
)
    requires
        old(pool).wf(),
        old(tls).wf(),
        buf.wf(),
    ensures
        worked(*old(pool), *old(tls), *old(trace), *final(pool), *final(tls), *final(trace)),
        final(trace)@ == old(trace)@.push(Step::Put { size: buf@.len(), cap: buf.cap() }),
        final(pool)@ == pool_after_put(old(pool)@, old(tls)@, buf.cap()),
        final(tls)@ == tls_after_put(old(pool)@, old(tls)@, buf.cap()),
{
    let ghost step = Step::Put { size: buf@.len(), cap: buf.cap() };
    proof {
        trace.steps@ = trace.steps@.push(step);
        assert(trace@.drop_last() =~= old(trace)@);
    }
    buf.release(pool, tls);
}

/// Takes a buffer, marks both its ends, and gives it back.
pub fn use_once<A: Allocator>(
    pool: &mut ZeroPool<A>,
    tls: &mut TlsState,
    trace: &mut Trace,
    size: usize,
)
    requires
        old(pool).wf(),
        old(tls).wf(),
        size <= isize::MAX,
    ensures
        worked(*old(pool), *old(tls), *old(trace), *final(pool), *final(tls), *final(trace)),
        did(*old(trace), *final(trace), cycle(size as nat)),
        final(trace)@.last() matches Step::Put { cap, .. } && old(pool).gives_capacity(
            old(tls)@,
            size,
            cap,
        ),
{
    let mut buf = take(pool, tls, trace, size);
    mark_ends(buf.as_mut());
    let ghost n = size as nat;
    let ghost cap = buf.cap();
    give(pool, tls, trace, buf);
    proof {
        let steps = seq![Step::Get { size: n, cap }, Step::Put { size: n, cap }];
        assert(trace@ =~= old(trace)@ + steps);
        lemma_did(*old(trace), *trace, steps, cycle(n));
    }
}

/// What the pool did when it handed out the buffers of a list.
pub open spec fn handed_out(bufs: Seq<PooledBuffer>) -> Seq<Step> {
    bufs.map_values(|b: PooledBuffer| Step::Get { size: b@.len(), cap: b.cap() })
}

/// What the pool does when the buffers of a list come back.
pub open spec fn brought_back(bufs: Seq<PooledBuffer>) -> Seq<Step> {
    bufs.map_values(|b: PooledBuffer| Step::Put { size: b@.len(), cap: b.cap() })
}

/// Takes `n` buffers of the same size and marks both ends of each.
pub fn take_many<A: Allocator>(
    pool: &mut ZeroPool<A>,
    tls: &mut TlsState,
    trace: &mut Trace,
    size: usize,
    n: usize,
) -> (bufs: Vec<PooledBuffer>)
    requires
        old(pool).wf(),
        old(tls).wf(),
        size <= isize::MAX,
    ensures
        worked(*old(pool), *old(tls), *old(trace), *final(pool), *final(tls), *final(trace)),
        final(trace)@ == old(trace)@ + handed_out(bufs@),
        bufs@.len() == n,
        forall|k: int|
            0 <= k < n ==> (#[trigger] bufs@[k]).wf() && bufs@[k]@ == with_ends_marked(
                zeros(size as nat),
            ),
{
    let mut bufs: Vec<PooledBuffer> = Vec::new();
    assert(trace@ =~= old(trace)@ + handed_out(bufs@));
    while bufs.len() < n
        invariant
            worked(*old(pool), *old(tls), *old(trace), *pool, *tls, *trace),
            size <= isize::MAX,
            bufs@.len() <= n,
            trace@ == old(trace)@ + handed_out(bufs@),
            forall|k: int|
                0 <= k < bufs@.len() ==> (#[trigger] bufs@[k]).wf() && bufs@[k]@
                    == with_ends_marked(zeros(size as nat)),
        decreases n - bufs@.len(),
    {
        let mut buf = take(pool, tls, trace, size);
        mark_ends(buf.as_mut());
        bufs.push(buf);
        assert(trace@ =~= old(trace)@ + handed_out(bufs@));
    }
    bufs
}

/// Gives all buffers of a list back, first one first.
pub fn give_all<A: Allocator>(
    pool: &mut ZeroPool<A>,
    tls: &mut TlsState,
    trace: &mut Trace,
    bufs: Vec<PooledBuffer>,
)
    requires
        old(pool).wf(),
        old(tls).wf(),
        forall|k: int| 0 <= k < bufs@.len() ==> (#[trigger] bufs@[k]).wf(),
    ensures
        worked(*old(pool), *old(tls), *old(trace), *final(pool), *final(tls), *final(trace)),
        final(trace)@ == old(trace)@ + brought_back(bufs@),
{
    let ghost all = bufs@;
    let mut bufs = bufs;
    let mut reversed: Vec<PooledBuffer> = Vec::new();
    while bufs.len() > 0
        invariant
            bufs@.len() + reversed@.len() == all.len(),
            bufs@ == all.take(bufs@.len() as int),
            forall|k: int|
                0 <= k < reversed@.len() ==> #[trigger] reversed@[k] == all[all.len() - 1 - k],
        decreases bufs@.len(),
    {
        if let Some(buf) = bufs.pop() {
            reversed.push(buf);
            assert(bufs@ =~= all.take(bufs@.len() as int));
        }
    }
    assert(trace@ =~= old(trace)@ + brought_back(all.take(0)));
    while reversed.len() > 0
        invariant
            worked(*old(pool), *old(tls), *old(trace), *pool, *tls, *trace),
            reversed@.len() <= all.len(),
            forall|k: int| 0 <= k < all.len() ==> (#[trigger] all[k]).wf(),
            forall|k: int|
                0 <= k < reversed@.len() ==> #[trigger] reversed@[k] == all[all.len() - 1 - k],
            trace@ == old(trace)@ + brought_back(all.take(all.len() - reversed@.len())),
        decreases reversed@.len(),
    {
        let ghost at = all.len() - reversed@.len();
        if let Some(buf) = reversed.pop() {
            assert(buf == all[at]);
            give(pool, tls, trace, buf);
            assert(all.take(at + 1) =~= all.take(at).push(all[at]));
            assert(trace@ =~= old(trace)@ + brought_back(all.take(at + 1)));
        }
    }
    assert(all.take(all.len() as int) =~= all);
}

/// Holds `n` buffers of the same size at once, both ends of each marked, and gives them back in
/// the order they were taken.
pub fn hold_many<A: Allocator>(
    pool: &mut ZeroPool<A>,
    tls: &mut TlsState,
    trace: &mut Trace,
    size: usize,
    n: usize,
)
    requires
        old(pool).wf(),
        old(tls).wf(),
        size <= isize::MAX,
    ensures
        worked(*old(pool), *old(tls), *old(trace), *final(pool), *final(tls), *final(trace)),
        did(*old(trace), *final(trace), held(size as nat, n as nat)),
{
    let bufs = take_many(pool, tls, trace, size, n);
    let ghost all = bufs@;
    give_all(pool, tls, trace, bufs);
    proof {
        let steps = handed_out(all) + brought_back(all);
        let events = held(size as nat, n as nat);
        assert(trace@ =~= old(trace)@ + steps);
        assert forall|k: int| 0 <= k < events.len() implies #[trigger] follows_at(
            steps,
            events,
            k,
        ) by {
            if k >= n {
                assert(steps[k - n] == handed_out(all)[k - n]);
                assert(all[k - n]@.len() == size);
            } else {
                assert(all[k]@.len() == size);
            }
        }
        lemma_did(*old(trace), *trace, steps, events);
    }
}

} // verus!
