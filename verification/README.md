# zeropool

A byte allocator in user space that recycles buffers by size class, verified with Verus.

Requests are rounded up to one of eight classes, from 4 KiB to 64 MiB. Memory comes from the cache
of the calling thread, else from a bounded queue per class that all threads share, else from a
pluggable allocator. Returned buffers go back to the thread's cache, which spills batches to the
shared queues. Every buffer that is handed out reads as zeros.

## Layout

- `src/` is the library. A pool is a value with exclusive access, and the cache of a thread is
  passed along with it. `model` says what every operation makes of a pool, `laws` what follows.
  Two crates are called behind trusted contracts: `crossbeam-queue` for the shared queues and
  `region` for locking memory; so is the capacity of a vector.
- `tests/` runs the library.
- `app/` makes shared pools of it: locks, thread-locals, buffers that return when dropped, the
  global allocator, `tokio-uring` traits, and profiling programs.

## Use

```rust
use zeropool::{PoolIds, TlsState, ZeroPool};

let mut ids = PoolIds::new();
let mut pool = ZeroPool::new(ids.issue(), 8).tls_cache_size(8).batch_size(4);
let mut tls = TlsState::new();

let mut buf = pool.allocate(&mut tls, 1024 * 1024);
buf[0] = 42;
buf.release(&mut pool, &mut tls);
```
