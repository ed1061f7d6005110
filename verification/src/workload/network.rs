//! A network server: requests and responses of mixed sizes.

use vstd::prelude::*;

use crate::allocator::Allocator;
use crate::laws::law_pool_is_sound;
use crate::pool::ZeroPool;
use crate::routing::{
    law_boundaries_route_to_their_class, lemma_boundaries, lemma_class_for_size,
};
use crate::tls::TlsState;
use crate::workload::touch::{set_first, with_first};
use crate::workload::trace::{
    did, give, lemma_did_both, lemma_did_nested, lemma_did_nothing, nested, same_configuration,
    take, worked, Event, Trace,
};
use crate::workload::warm_up::{lemma_topped_up, top_up, topped_up};

verus! {

/// Connections that one worker handles.
pub const CONNECTIONS_PER_THREAD: usize = 5000;

/// Requests in one connection.
pub const REQUESTS_PER_CONNECTION: usize = 100;

/// Packet sizes, each with how many packets in a hundred have it.
pub const PACKET_SIZES: [(usize, usize); 7] = [
    (64, 50),
    (512, 20),
    (1024, 10),
    (4096, 10),
    (16384, 7),
    (32768, 2),
    (65536, 1),
];

/// How many packets in a hundred have one of the first `n` sizes.
pub open spec fn share(n: int) -> int
    decreases n,
{
    if n <= 0 {
        0
    } else {
        share(n - 1) + PACKET_SIZES[n - 1].1
    }
}

/// The size for a draw: the first whose share of the packets, with those before it, exceeds the
/// draw. Draws are taken from `0..100`; any other gives the first size.
pub open spec fn packet_size_spec(random: int) -> usize {
    if random < 50 {
        64
    } else if random < 70 {
        512
    } else if random < 80 {
        1024
    } else if random < 90 {
        4096
    } else if random < 97 {
        16384
    } else if random < 99 {
        32768
    } else if random < 100 {
        65536
    } else {
        64
    }
}

/// Picks a packet size by a draw from `0..100`.
pub fn packet_size(random: usize) -> (size: usize)
    ensures
        size == packet_size_spec(random as int),
{
    let mut cumulative: usize = 0;
    let mut k: usize = 0;
    while k < 7
        invariant
            k <= 7,
            cumulative == share(k as int),
            cumulative <= 100,
            random >= cumulative,
        decreases 7 - k,
    {
        proof {
            reveal_with_fuel(share, 8);
        }
        let (size, weight) = PACKET_SIZES[k];
        cumulative = cumulative + weight;
        if random < cumulative {
            return size;
        }
        k = k + 1;
    }
    proof {
        reveal_with_fuel(share, 8);
    }
    PACKET_SIZES[0].0
}

/// Reads a request: its length, as 32 bits.
pub fn parse_request(buffer: &[u8]) -> (id: u32)
    ensures
        id == buffer@.len() as u32,
{
    buffer.len() as u32
}

/// Writes a response: its first byte is the low byte of the request.
pub fn generate_response(buffer: &mut [u8], request_id: u32)
    ensures
        final(buffer)@ == with_first(old(buffer)@, (request_id % 256) as u8),
{
    set_first(buffer, (request_id % 256) as u8);
}

/// The pool requests for one request and its response.
pub open spec fn exchange_events(draw: (usize, usize)) -> Seq<Event> {
    nested(packet_size_spec(draw.0 as int) as nat, packet_size_spec(draw.1 as int) as nat)
}

/// The pool requests of one connection.
pub open spec fn connection_events(draws: Seq<(usize, usize)>) -> Seq<Event>
    decreases draws.len(),
{
    if draws.len() == 0 {
        Seq::empty()
    } else {
        connection_events(draws.drop_last()) + exchange_events(draws.last())
    }
}

/// The bytes that one connection moves.
pub open spec fn connection_bytes(draws: Seq<(usize, usize)>) -> int
    decreases draws.len(),
{
    if draws.len() == 0 {
        0
    } else {
        connection_bytes(draws.drop_last()) + packet_size_spec(draws.last().0 as int)
            + packet_size_spec(draws.last().1 as int)
    }
}

/// A longer connection moves more bytes.
proof fn lemma_connection_bytes(draws: Seq<(usize, usize)>, n: int)
    requires
        0 <= n <= draws.len(),
    ensures
        0 <= connection_bytes(draws.take(n)) <= connection_bytes(draws),
    decreases draws.len(),
{
    if n < draws.len() {
        lemma_connection_bytes(draws.drop_last(), n);
        assert(draws.drop_last().take(n) =~= draws.take(n));
    } else if n > 0 {
        lemma_connection_bytes(draws.drop_last(), n - 1);
        assert(draws.drop_last().take(n - 1) =~= draws.drop_last());
        assert(draws.take(n) =~= draws);
    } else {
        assert(draws.take(n) =~= draws);
    }
}

/// Handles one connection and returns how many requests it made and how many bytes they moved.
///
/// Each draw gives the sizes of one request and of its response.
pub fn handle_connection<A: Allocator>(
    pool: &mut ZeroPool<A>,
    tls: &mut TlsState,
    trace: &mut Trace,
    draws: &[(usize, usize)],
) -> (totals: (usize, usize))
    requires
        old(pool).wf(),
        old(tls).wf(),
        connection_bytes(draws@) <= usize::MAX,
    ensures
        worked(*old(pool), *old(tls), *old(trace), *final(pool), *final(tls), *final(trace)),
        totals.0 == draws@.len(),
        totals.1 == connection_bytes(draws@),
        did(*old(trace), *final(trace), connection_events(draws@)),
{
    let mut requests: usize = 0;
    let mut bytes: usize = 0;
    proof {
        lemma_did_nothing(*trace);
        assert(draws@.take(0) =~= Seq::empty());
    }
    while requests < draws.len()
        invariant
            requests <= draws@.len(),
            connection_bytes(draws@) <= usize::MAX,
            worked(*old(pool), *old(tls), *old(trace), *pool, *tls, *trace),
            bytes == connection_bytes(draws@.take(requests as int)),
            did(*old(trace), *trace, connection_events(draws@.take(requests as int))),
        decreases draws@.len() - requests,
    {
        let (request_draw, response_draw) = draws[requests];
        proof {
            let done = draws@.take(requests as int + 1);
            assert(done.drop_last() =~= draws@.take(requests as int));
            lemma_connection_bytes(draws@, requests as int);
            lemma_connection_bytes(draws@, requests as int + 1);
        }
        let ghost before = *trace;
        let mut request_buf = take(pool, tls, trace, packet_size(request_draw));
        set_first(request_buf.as_mut(), 1);
        let request_data: u32 = parse_request(request_buf.as_ref());
        bytes = bytes + request_buf.len();

        let mut response_buf = take(pool, tls, trace, packet_size(response_draw));
        generate_response(response_buf.as_mut(), request_data);
        bytes = bytes + response_buf.len();

        let ghost (request, response) = (request_buf@.len(), response_buf@.len());
        let ghost (outer, inner) = (request_buf.cap(), response_buf.cap());
        give(pool, tls, trace, response_buf);
        give(pool, tls, trace, request_buf);
        proof {
            lemma_did_nested(before, *trace, request, response, outer, inner);
            lemma_did_both(
                *old(trace),
                before,
                *trace,
                connection_events(draws@.take(requests as int)),
                exchange_events(draws@[requests as int]),
            );
        }
        requests = requests + 1;
    }
    assert(draws@.take(requests as int) =~= draws@);
    (requests, bytes)
}

/// Fills the shared pool with common packet sizes. Sizes of the same class share its limit.
pub fn preallocate_common_sizes<A: Allocator>(pool: &mut ZeroPool<A>)
    requires
        old(pool).wf(),
    ensures
        final(pool).wf(),
        same_configuration(old(pool)@, final(pool)@),
        final(pool)@.counters == old(pool)@.counters,
        final(pool)@.shared.len() == 8,
        topped_up(
            old(pool)@.shared[0],
            final(pool)@.shared[0],
            112,
            old(pool)@.max_buffers,
            4096,
        ),
        topped_up(
            old(pool)@.shared[1],
            final(pool)@.shared[1],
            8,
            old(pool)@.max_buffers,
            16384,
        ),
        forall|i: int| 2 <= i < 8 ==> #[trigger] final(pool)@.shared[i] == old(pool)@.shared[i],
{
    proof {
        lemma_boundaries();
        lemma_class_for_size(64);
        lemma_class_for_size(512);
        lemma_class_for_size(1024);
        law_boundaries_route_to_their_class(0);
        law_boundaries_route_to_their_class(1);
    }
    let ghost limit = pool@.max_buffers;
    let ghost q0 = pool@.shared[0];
    assert(pool@.wf()) by {
        law_pool_is_sound(*pool);
    }
    top_up(pool, 32, 64);
    let ghost q1 = pool@.shared[0];
    top_up(pool, 32, 512);
    let ghost q2 = pool@.shared[0];
    top_up(pool, 32, 1024);
    let ghost q3 = pool@.shared[0];
    top_up(pool, 16, 4096);
    let ghost q4 = pool@.shared[0];
    proof {
        lemma_topped_up(q0, q1, q2, 32, 32, limit, 4096);
        lemma_topped_up(q0, q2, q3, 64, 32, limit, 4096);
        lemma_topped_up(q0, q3, q4, 96, 16, limit, 4096);
    }
    top_up(pool, 8, 16384);
}

} // verus!
