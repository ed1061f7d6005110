//! Configuration defaults.

use vstd::prelude::*;

verus! {

/// Default minimum buffer size: the smallest class boundary.
pub const DEFAULT_MIN_BUFFER_SIZE: usize = 4096;

/// Shared blocks per class on a small machine.
const BASE_BUFFERS: usize = 32;

/// Blocks that a thread caches per class on a machine with the given number of CPUs.
pub open spec fn tls_cache_size_for(num_cpus: int) -> int {
    if num_cpus <= 2 {
        2
    } else if num_cpus <= 4 {
        4
    } else if num_cpus <= 8 {
        6
    } else {
        8
    }
}

/// Shared blocks per class on a machine with the given number of CPUs.
pub open spec fn max_buffers_for(num_cpus: int) -> int {
    if num_cpus < 16 {
        32
    } else if num_cpus < 32 {
        64
    } else if num_cpus < 64 {
        96
    } else {
        128
    }
}

/// Half of the thread cache, but at least two.
pub open spec fn batch_size_for(tls_cache_size: int) -> int {
    if tls_cache_size / 2 < 2 {
        2
    } else {
        tls_cache_size / 2
    }
}

/// Thread cache size per class, by CPU count.
pub fn default_tls_cache_size(num_cpus: usize) -> (n: usize)
    ensures
        n == tls_cache_size_for(num_cpus as int),
{
    match num_cpus {
        0..=2 => 2,
        3..=4 => 4,
        5..=8 => 6,
        _ => 8,
    }
}

/// Most shared buffers per class, by CPU count.
pub fn default_max_buffers_per_class(num_cpus: usize) -> (n: usize)
    ensures
        n == max_buffers_for(num_cpus as int),
{
    let scaling: usize = match num_cpus {
        0..=15 => 1,
        16..=31 => 2,
        32..=63 => 3,
        _ => 4,
    };
    BASE_BUFFERS * scaling
}

/// Batch transfer size, by thread cache size.
pub fn default_batch_size(tls_cache_size: usize) -> (n: usize)
    ensures
        n == batch_size_for(tls_cache_size as int),
{
    let half: usize = tls_cache_size / 2;
    if half < 2 {
        2
    } else {
        half
    }
}

/// The defaults step up with the number of CPUs.
pub proof fn law_defaults_by_cpu_count(cpus: int)
    ensures
        cpus <= 2 ==> tls_cache_size_for(cpus) == 2,
        3 <= cpus <= 4 ==> tls_cache_size_for(cpus) == 4,
        5 <= cpus <= 8 ==> tls_cache_size_for(cpus) == 6,
        9 <= cpus ==> tls_cache_size_for(cpus) == 8,
        cpus <= 15 ==> max_buffers_for(cpus) == 32,
        16 <= cpus <= 31 ==> max_buffers_for(cpus) == 64,
        32 <= cpus <= 63 ==> max_buffers_for(cpus) == 96,
        64 <= cpus ==> max_buffers_for(cpus) == 128,
{
}

/// A machine with more CPUs never gets smaller defaults.
pub proof fn law_defaults_grow(fewer: int, more: int)
    requires
        fewer <= more,
    ensures
        tls_cache_size_for(fewer) <= tls_cache_size_for(more),
        max_buffers_for(fewer) <= max_buffers_for(more),
{
}

/// A batch is half of the thread cache, rounded down, and at least two.
pub proof fn law_batch_is_half_of_the_cache(size: int)
    requires
        0 <= size,
    ensures
        batch_size_for(size) >= 2,
        size >= 4 ==> 2 * batch_size_for(size) <= size < 2 * batch_size_for(size) + 2,
        size < 4 ==> batch_size_for(size) == 2,
{
}

} // verus!
