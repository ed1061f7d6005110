//! A byte allocator in user space that recycles buffers by size class.
//!
//! Requests are rounded up to one of eight classes, from 4 KiB to 64 MiB in steps of four. Memory
//! comes from the cache of the calling thread, else from the storage that all threads share, else
//! from the [`Allocator`]. It goes back the same way: to the thread's cache, and in batches to the
//! shared storage once that cache is full. Requests above the largest class bypass the pool.
//!
//! The pool is worked on with exclusive access, and the cache of a thread is passed along as a
//! [`TlsState`]. A buffer is given back by its `release` method.
//!
//! - [`pool`] is the pool, [`buf`] and [`buffer`] are the buffers it hands out;
//! - [`size_class`], [`tls`] and [`routing`] are its parts;
//! - [`model`] says what every operation does to a pool, [`operations`], [`calls`] and [`laws`]
//!   what follows from that;
//! - [`metrics`] counts what the pool does;
//! - [`global`] decides where the memory of a global allocator comes from;
//! - [`workload`] holds synthetic workloads.

pub mod allocator;
pub mod block;
pub mod buf;
pub mod buffer;
pub mod calls;
pub mod config;
pub mod global;
pub mod laws;
pub mod metrics;
pub mod model;
pub mod operations;
pub mod pool;
pub mod queue;
pub mod routing;
pub mod size_class;
pub mod text;
pub mod tls;
pub mod workload;

pub use allocator::{Allocator, HeapAllocator};
pub use block::Block;
pub use buf::{Buf, BufUninit};
pub use buffer::PooledBuffer;
pub use global::ZeroPoolGlobalAlloc;
pub use metrics::{ClassInfo, Counters, PoolStats};
pub use pool::{BufferPool, PoolIds, ZeroPool};
pub use size_class::{ClassTable, SizeClass};
pub use tls::TlsState;
