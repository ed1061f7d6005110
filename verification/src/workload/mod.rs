//! Synthetic workloads for profiling the pool.

pub mod checkpoint;
pub mod file_pipeline;
pub mod laws;
pub mod network;
pub mod shapes;
pub mod stress;
pub mod touch;
pub mod trace;
pub mod warm_up;
