//! The process-wide memory system: one backend chosen at startup and
//! initialized exactly once.  The once-only discipline lives here as an
//! explicit slot; the program embeds the slot in its single global.

use vstd::prelude::*;
use crate::allocator::AllocError;
use crate::backend::MemoryBackend;
use crate::lock_free_pool::PoolConfig;
use crate::safe_pool::SafePoolConfig;

verus! {

/// The process-wide memory system: the backend every subsystem shares.
#[derive(Debug)]
pub struct MemorySystem {
    /// The configured backend.
    pub backend: MemoryBackend,
}

/// A slot that accepts exactly one memory system: a second initialization
/// is refused, and a read before the first is refused.
#[derive(Debug)]
pub struct MemorySystemSlot {
    /// The installed system, if any.
    pub inner: Option<MemorySystem>,
}

impl MemorySystemSlot {
    /// An empty slot.
    pub fn new() -> (r: Self)
        ensures
            r.inner is None,
    {
        MemorySystemSlot { inner: None }
    }

    /// Installs the memory system.  A second call finds the slot taken
    /// and fails with `AlreadyInitialized`, leaving the first system in
    /// place.
    pub fn initialize(&mut self, backend: MemoryBackend) -> (r: Result<(), AllocError>)
        ensures
            old(self).inner is None ==> (r is Ok && (final(self).inner matches Some(m)
                && m.backend == backend)),
            old(self).inner is Some ==> (r matches Err(AllocError::AlreadyInitialized)
                && final(self).inner == old(self).inner),
    {
        match &self.inner {
            Some(_) => Err(AllocError::AlreadyInitialized),
            None => {
                self.inner = Some(MemorySystem { backend });
                Ok(())
            },
        }
    }

    /// The installed memory system; fails with `NotInitialized` before
    /// the first successful `initialize`.
    pub fn memory_system(&self) -> (r: Result<&MemorySystem, AllocError>)
        ensures
            self.inner matches Some(m) ==> (r matches Ok(sys) && *sys == m),
            self.inner is None ==> r matches Err(AllocError::NotInitialized),
    {
        match &self.inner {
            Some(m) => Ok(m),
            None => Err(AllocError::NotInitialized),
        }
    }
}

/// The backend the capability switch selects at startup: the lock-free
/// pool in fast mode, the safe pool otherwise, both over 4 KiB chunks,
/// 1024 of them up front, capped at 100 000.
pub fn default_backend(unsafe_fast: bool) -> (r: Result<MemoryBackend, AllocError>)
    ensures
        r matches Ok(b) ==> {
            &&& unsafe_fast ==> (b matches MemoryBackend::LockFree(pool) && {
                &&& pool.config.chunk_size == 4096
                &&& pool.config.initial_chunks == 1024
                &&& pool.config.max_chunks == 100_000
                &&& pool.config.alignment == 64
                &&& !pool.config.zero_on_dealloc
            })
            &&& !unsafe_fast ==> (b matches MemoryBackend::Safe(pool) && {
                &&& pool.config.chunk_size == 4096
                &&& pool.config.initial_chunks == 1024
                &&& pool.config.max_chunks == 100_000
                &&& !pool.config.zero_on_dealloc
            })
        },
        r is Ok,
{
    proof {
        assert(4096usize & 4095 == 0) by (bit_vector);
        assert(64usize & 63 == 0) by (bit_vector);
    }
    if unsafe_fast {
        let config = PoolConfig {
            chunk_size: 4096,
            initial_chunks: 1024,
            max_chunks: 100_000,
            alignment: 64,
            zero_on_dealloc: false,
            thread_cache_size: 32,
        };
        MemoryBackend::lock_free(config)
    } else {
        let config = SafePoolConfig {
            chunk_size: 4096,
            initial_chunks: 1024,
            max_chunks: 100_000,
            zero_on_dealloc: false,
        };
        MemoryBackend::safe(config)
    }
}

} // verus!
