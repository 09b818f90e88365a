//! The unified memory backend: a tagged union over the four allocator
//! backends, so one value can stand for whichever backend the process was
//! configured with.

use vstd::prelude::*;
use crate::allocator::AllocError;
use crate::lock_free_pool::{LockFreeMemoryPool, PoolConfig};
use crate::numa_allocator::{NumaAllocator, NumaConfig};
use crate::safe_pool::{SafeMemoryPool, SafePoolConfig};
use crate::slab_allocator::{SlabAllocator, SlabConfig};

verus! {

/// One of the four interchangeable allocator backends.
#[derive(Debug)]
pub enum MemoryBackend {
    /// The safe pool, always available.
    Safe(SafeMemoryPool),
    /// The lock-free chunk pool.
    LockFree(LockFreeMemoryPool),
    /// The NUMA-aware allocator.
    Numa(NumaAllocator),
    /// The slab allocator.
    Slab(SlabAllocator),
}

impl MemoryBackend {
    /// Builds a safe backend.
    pub fn safe(config: SafePoolConfig) -> (r: Result<Self, AllocError>)
        ensures
            config.chunk_size > 0 ==> (r matches Ok(b) && b matches MemoryBackend::Safe(pool)
                && pool.wf() && pool.config == config),
            config.chunk_size == 0 ==> r is Err,
    {
        match SafeMemoryPool::new(config) {
            Ok(pool) => Ok(MemoryBackend::Safe(pool)),
            Err(e) => Err(e),
        }
    }

    /// Builds a lock-free backend.
    pub fn lock_free(config: PoolConfig) -> (r: Result<Self, AllocError>)
        ensures
            r matches Ok(b) ==> (b matches MemoryBackend::LockFree(pool) && pool.wf()
                && pool.config == config),
            (crate::allocator::spec_power_of_two(config.chunk_size) || config.chunk_size
                >= crate::lock_free_pool::CACHE_LINE_SIZE)
                && crate::allocator::spec_power_of_two(config.alignment) ==> r is Ok,
    {
        match LockFreeMemoryPool::new(config) {
            Ok(pool) => Ok(MemoryBackend::LockFree(pool)),
            Err(e) => Err(e),
        }
    }

    /// Builds a NUMA-aware backend.
    pub fn numa(config: NumaConfig) -> (r: Result<Self, AllocError>)
        ensures
            r matches Ok(b) ==> (b matches MemoryBackend::Numa(a) && a.wf()),
            config.nodes@.len() > 0 && (crate::allocator::spec_power_of_two(
                config.pool_config.chunk_size,
            ) || config.pool_config.chunk_size >= crate::lock_free_pool::CACHE_LINE_SIZE)
                && crate::allocator::spec_power_of_two(config.pool_config.alignment) ==> r is Ok,
    {
        match NumaAllocator::new(config) {
            Ok(a) => Ok(MemoryBackend::Numa(a)),
            Err(e) => Err(e),
        }
    }

    /// Builds a slab backend.
    pub fn slab(config: SlabConfig) -> (r: Result<Self, AllocError>)
        ensures
            r matches Ok(b) ==> (b matches MemoryBackend::Slab(s) && s.wf() && s.config == config),
            config.min_object_size >= 1 ==> r is Ok,
            config.min_object_size == 0 ==> r is Err,
    {
        match SlabAllocator::new(config) {
            Ok(s) => Ok(MemoryBackend::Slab(s)),
            Err(e) => Err(e),
        }
    }

    /// Whether this is one of the fast backends that the capability
    /// switch guards; only the safe pool is available without it.
    pub fn is_unsafe(&self) -> (r: bool)
        ensures
            r == !(self is Safe),
    {
        match self {
            MemoryBackend::Safe(_) => false,
            MemoryBackend::LockFree(_) => true,
            MemoryBackend::Numa(_) => true,
            MemoryBackend::Slab(_) => true,
        }
    }

    /// The backend's kind, as a string for logging.
    pub fn backend_type(&self) -> (r: &'static str)
        ensures
            self is Safe ==> r@ == "Safe"@,
            self is LockFree ==> r@ == "LockFree"@,
            self is Numa ==> r@ == "NUMA-aware"@,
            self is Slab ==> r@ == "Slab"@,
    {
        match self {
            MemoryBackend::Safe(_) => "Safe",
            MemoryBackend::LockFree(_) => "LockFree",
            MemoryBackend::Numa(_) => "NUMA-aware",
            MemoryBackend::Slab(_) => "Slab",
        }
    }
}

} // verus!
