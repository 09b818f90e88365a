//! Memory management layer for an ultra-low-latency trading platform.
//!
//! The library offers several interchangeable allocator backends behind a
//! uniform contract: a safe buffer-recycling pool, a lock-free fixed-size
//! chunk pool, a slab allocator with pre-allocated size classes, and a
//! NUMA-aware allocator that steers threads to per-node pools.  Allocation
//! telemetry (counters, latency percentiles, a size histogram) and a
//! hazard-pointer domain for deferred reclamation round out the core.

pub mod allocator;
pub mod backend;
pub mod chunk_queue;
pub mod execution;
pub mod hazard_pointer;
pub mod lock_free_pool;
pub mod numa_allocator;
pub mod registry;
pub mod safe_pool;
pub mod slab_allocator;
pub mod stats;
pub mod time;
pub mod topology;
