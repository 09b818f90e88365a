//! The lock-free chunk pool: a fixed-stride recycler of owned byte buffers
//! built on a lock-free free-list queue, with a hazard-pointer domain on
//! hand for deferred reclamation.  Every release tags the chunk with a
//! fresh generation, so a chunk's generation grows over its reuses.

use vstd::prelude::*;
use crossbeam::queue::SegQueue;
use crate::allocator::{
    AllocError, MemoryAllocator, power_of_two, spec_power_of_two, zero_seq, zero_fill,
};
use crate::chunk_queue::{chunk_queue_view, chunk_queue_new, chunk_queue_push, chunk_queue_pop};
use crate::hazard_pointer::HazardPointerDomain;
use crate::stats::{
    AllocationTimer, MemoryStats, max_usize, sat_add_u64, sat_add_usize, sat_mul_usize,
    clamped_sub_usize, add_sat_u64, mul_sat_usize,
};
use vstd::string::StringExecFns;

verus! {

/// One cache line, the default chunk alignment.
pub const CACHE_LINE_SIZE: usize = 64;

/// Threads served by the pool's hazard-pointer domain.
pub const POOL_HAZARD_THREADS: usize = 128;

/// Configuration of a lock-free chunk pool.
#[derive(Clone, Copy, Debug)]
pub struct PoolConfig {
    /// Size in bytes of every chunk.
    pub chunk_size: usize,
    /// Chunks created up front at construction.
    pub initial_chunks: usize,
    /// Cap on the total number of chunks, recycled or handed out.
    pub max_chunks: usize,
    /// Alignment honored by the pool.
    pub alignment: usize,
    /// Whether a returned chunk is zeroed before it is recycled.
    pub zero_on_dealloc: bool,
    /// Advisory per-thread cache size; kept for configuration parity.
    pub thread_cache_size: usize,
}

impl Default for PoolConfig {
    /// 4 KiB chunks, 1024 pre-allocated, a cap of one million, cache-line
    /// alignment, no zeroing on release.
    fn default() -> (r: Self)
        ensures
            r.chunk_size == 4096,
            r.initial_chunks == 1024,
            r.max_chunks == 1_000_000,
            r.alignment == CACHE_LINE_SIZE,
            !r.zero_on_dealloc,
            r.thread_cache_size == 32,
    {
        PoolConfig {
            chunk_size: 4096,
            initial_chunks: 1024,
            max_chunks: 1_000_000,
            alignment: CACHE_LINE_SIZE,
            zero_on_dealloc: false,
            thread_cache_size: 32,
        }
    }
}

/// An owned region handed out by a backend: its bytes, the generation tag
/// it was issued under, and the index of the NUMA node pool it came from
/// (zero outside the NUMA allocator).
#[derive(Debug)]
pub struct MemoryChunk {
    /// The region's bytes.
    pub data: Vec<u8>,
    /// Generation tag at issue; a recycled chunk is reissued under a
    /// strictly larger tag.
    pub generation: u64,
    /// Index of the node pool that issued the chunk; zero outside the
    /// NUMA allocator.
    pub origin: usize,
}

/// Counters reported by `LockFreeMemoryPool::get_stats`.
#[derive(Debug, Clone, Copy, PartialEq, Eq, Structural)]
pub struct PoolStats {
    /// Chunks currently handed out.
    pub allocated_chunks: usize,
    /// Chunks waiting in the free list.
    pub free_chunks: usize,
    /// Total bytes owned by the pool, free and handed out.
    pub total_memory_bytes: usize,
    /// Size of every chunk.
    pub chunk_size: usize,
}

/// The lock-free chunk pool.
#[derive(Debug)]
pub struct LockFreeMemoryPool {
    /// The pool's configuration, fixed at construction.
    pub config: PoolConfig,
    /// Chunks awaiting reuse, oldest release first.
    pub free_chunks: SegQueue<(Vec<u8>, u64)>,
    /// Chunks currently handed out.
    pub allocated_count: usize,
    /// Chunks waiting in the free list; mirrors the queue length.
    pub free_count: usize,
    /// Total bytes owned by the pool.
    pub total_memory: usize,
    /// Next generation tag to assign; grows on every release.
    pub generation: u64,
    /// The hazard-pointer domain kept for reclamation.  Chunks are
    /// recycled through the free list and never retired while the pool is
    /// live, so the allocation path does not publish hazards: the
    /// publication fence is only worth paying when retirement can occur.
    pub hazard_domain: HazardPointerDomain,
    /// The pool's telemetry.
    pub stats: MemoryStats,
}

impl LockFreeMemoryPool {
    /// The pool's structural invariant.
    pub open spec fn wf(&self) -> bool {
        &&& self.config.chunk_size > 0
        &&& spec_power_of_two(self.config.alignment)
        &&& self.free_count == chunk_queue_view(self.free_chunks).len()
        &&& forall|i: int|
            0 <= i < chunk_queue_view(self.free_chunks).len() ==> (#[trigger] chunk_queue_view(
                self.free_chunks,
            )[i]).0.len() == self.config.chunk_size
        &&& forall|i: int|
            0 <= i < chunk_queue_view(self.free_chunks).len() ==> (#[trigger] chunk_queue_view(
                self.free_chunks,
            )[i]).1 <= self.generation
        &&& self.config.zero_on_dealloc ==> forall|i: int|
            0 <= i < chunk_queue_view(self.free_chunks).len() ==> (#[trigger] chunk_queue_view(
                self.free_chunks,
            )[i]).0 == zero_seq(self.config.chunk_size as nat)
        &&& self.allocated_count + self.free_count <= max_usize(
            self.config.max_chunks,
            self.config.initial_chunks,
        )
        &&& self.hazard_domain.wf()
        &&& self.stats.wf()
    }

    /// Builds a pool and pre-allocates `initial_chunks` zeroed chunks.  A
    /// chunk size that is neither a power of two nor at least a cache
    /// line, or an alignment that is not a power of two, is rejected as an
    /// invalid layout.
    pub fn new(config: PoolConfig) -> (r: Result<Self, AllocError>)
        ensures
            !spec_power_of_two(config.chunk_size) && config.chunk_size < CACHE_LINE_SIZE ==> (
            r matches Err(AllocError::InvalidLayout(m)) && m@
                == "Chunk size must be power of 2 and >= cache line size"@),
            (spec_power_of_two(config.chunk_size) || config.chunk_size >= CACHE_LINE_SIZE)
                && !spec_power_of_two(config.alignment) ==> (r matches Err(
                AllocError::InvalidLayout(m),
            ) && m@ == "Alignment must be a power of two"@),
            (spec_power_of_two(config.chunk_size) || config.chunk_size >= CACHE_LINE_SIZE)
                && spec_power_of_two(config.alignment) ==> (r matches Ok(pool) && {
                &&& pool.wf()
                &&& pool.config == config
                &&& pool.allocated_count == 0
                &&& pool.free_count == config.initial_chunks
                &&& chunk_queue_view(pool.free_chunks).len() == config.initial_chunks
                &&& forall|i: int|
                    0 <= i < config.initial_chunks ==> (#[trigger] chunk_queue_view(
                        pool.free_chunks,
                    )[i]).0 == zero_seq(config.chunk_size as nat)
                &&& pool.total_memory == crate::stats::sat_mul_usize(
                    config.initial_chunks,
                    config.chunk_size,
                )
                &&& pool.stats.is_zeroed()
            }),
    {
        if !power_of_two(config.chunk_size) && config.chunk_size < CACHE_LINE_SIZE {
            return Err(
                AllocError::InvalidLayout(
                    String::from_str("Chunk size must be power of 2 and >= cache line size"),
                ),
            );
        }
        if !power_of_two(config.alignment) {
            return Err(
                AllocError::InvalidLayout(String::from_str("Alignment must be a power of two")),
            );
        }
        let mut pool = LockFreeMemoryPool {
            config,
            free_chunks: chunk_queue_new(),
            allocated_count: 0,
            free_count: 0,
            total_memory: 0,
            generation: 0,
            hazard_domain: HazardPointerDomain::new(POOL_HAZARD_THREADS),
            stats: MemoryStats::new(),
        };
        pool.preallocate_chunks(config.initial_chunks);
        Ok(pool)
    }

    /// Creates `count` zeroed chunks on the free list of a fresh pool.
    fn preallocate_chunks(&mut self, count: usize)
        requires
            old(self).config.chunk_size > 0,
            spec_power_of_two(old(self).config.alignment),
            old(self).allocated_count == 0,
            old(self).free_count == 0,
            old(self).generation == 0,
            chunk_queue_view(old(self).free_chunks).len() == 0,
            old(self).total_memory == 0,
            old(self).hazard_domain.wf(),
            old(self).stats.wf(),
            count <= max_usize(old(self).config.max_chunks, old(self).config.initial_chunks),
            count <= u64::MAX,
        ensures
            final(self).wf(),
            final(self).config == old(self).config,
            final(self).allocated_count == 0,
            final(self).free_count == count,
            final(self).total_memory == crate::stats::sat_mul_usize(
                count,
                old(self).config.chunk_size,
            ),
            chunk_queue_view(final(self).free_chunks).len() == count,
            forall|i: int|
                0 <= i < count ==> (#[trigger] chunk_queue_view(final(self).free_chunks)[i]).0
                    == zero_seq(old(self).config.chunk_size as nat),
            final(self).stats == old(self).stats,
    {
        let mut created: usize = 0;
        while created < count
            invariant
                self.config == old(self).config,
                self.config.chunk_size > 0,
                spec_power_of_two(self.config.alignment),
                self.allocated_count == 0,
                created <= count,
                count <= max_usize(self.config.max_chunks, self.config.initial_chunks),
                count <= u64::MAX,
                self.free_count == created,
                self.generation == created as u64,
                chunk_queue_view(self.free_chunks).len() == created,
                forall|i: int|
                    0 <= i < created ==> (#[trigger] chunk_queue_view(self.free_chunks)[i]).0
                        == zero_seq(self.config.chunk_size as nat),
                forall|i: int|
                    0 <= i < created ==> (#[trigger] chunk_queue_view(self.free_chunks)[i]).1
                        <= self.generation,
                self.total_memory == crate::stats::sat_mul_usize(created, self.config.chunk_size),
                self.hazard_domain == old(self).hazard_domain,
                self.stats == old(self).stats,
                self.stats.wf(),
            decreases count - created,
        {
            let data = crate::allocator::zero_vec(self.config.chunk_size);
            chunk_queue_push(&mut self.free_chunks, data, self.generation);
            self.generation = self.generation + 1;
            self.free_count = self.free_count + 1;
            proof {
                crate::stats::lemma_sat_mul_step(created, self.config.chunk_size);
            }
            self.total_memory = crate::stats::add_sat_usize(
                self.total_memory,
                self.config.chunk_size,
            );
            created = created + 1;
        }
    }

    /// Hands out a chunk: the oldest recycled buffer if one is free, or a
    /// newly created zeroed buffer while the pool is below its cap.  Fails
    /// with `PoolExhausted` exactly when the free list is empty and the
    /// cap is reached; the failure is counted in the telemetry.
    pub fn allocate_chunk(&mut self) -> (r: Result<MemoryChunk, AllocError>)
        requires
            old(self).wf(),
        ensures
            final(self).wf(),
            final(self).config == old(self).config,
            final(self).generation >= old(self).generation,
            ({
                let v = chunk_queue_view(old(self).free_chunks);
                let total = old(self).allocated_count + old(self).free_count;
                if v.len() > 0 {
                    &&& r matches Ok(c)
                    &&& c.data@ == v[0].0
                    &&& c.generation == v[0].1
                    &&& c.origin == 0
                    &&& c.data@.len() == old(self).config.chunk_size
                    &&& old(self).config.zero_on_dealloc ==> c.data@ == zero_seq(
                        old(self).config.chunk_size as nat,
                    )
                    &&& chunk_queue_view(final(self).free_chunks) == v.drop_first()
                    &&& final(self).free_count == old(self).free_count - 1
                    &&& final(self).allocated_count == old(self).allocated_count + 1
                    &&& final(self).stats.allocations == sat_add_u64(old(self).stats.allocations, 1)
                    &&& final(self).stats.allocated_bytes == sat_add_usize(
                        old(self).stats.allocated_bytes,
                        old(self).config.chunk_size,
                    )
                    &&& final(self).stats.peak_bytes == max_usize(
                        old(self).stats.peak_bytes,
                        final(self).stats.allocated_bytes,
                    )
                } else if total >= old(self).config.max_chunks {
                    &&& r matches Err(AllocError::PoolExhausted)
                    &&& chunk_queue_view(final(self).free_chunks) == v
                    &&& final(self).allocated_count == old(self).allocated_count
                    &&& final(self).free_count == old(self).free_count
                    &&& final(self).stats.failed_allocations == sat_add_u64(
                        old(self).stats.failed_allocations,
                        1,
                    )
                    &&& final(self).stats.allocations == old(self).stats.allocations
                    &&& final(self).stats.allocated_bytes == old(self).stats.allocated_bytes
                    &&& final(self).stats.peak_bytes == old(self).stats.peak_bytes
                    &&& final(self).stats.deallocations == old(self).stats.deallocations
                    &&& final(self).generation == old(self).generation
                    &&& final(self).total_memory == old(self).total_memory
                } else {
                    &&& r matches Ok(c)
                    &&& c.data@ == zero_seq(old(self).config.chunk_size as nat)
                    &&& c.generation == old(self).generation
                    &&& c.origin == 0
                    &&& chunk_queue_view(final(self).free_chunks) == v
                    &&& final(self).free_count == old(self).free_count
                    &&& final(self).allocated_count == old(self).allocated_count + 1
                    &&& final(self).stats.allocations == sat_add_u64(old(self).stats.allocations, 1)
                    &&& final(self).stats.allocated_bytes == sat_add_usize(
                        old(self).stats.allocated_bytes,
                        old(self).config.chunk_size,
                    )
                    &&& final(self).stats.peak_bytes == max_usize(
                        old(self).stats.peak_bytes,
                        final(self).stats.allocated_bytes,
                    )
                }
            }),
    {
        let timer = AllocationTimer::start();

        if let Some((data, tag)) = chunk_queue_pop(&mut self.free_chunks) {
            self.free_count = self.free_count - 1;
            self.allocated_count = self.allocated_count + 1;
            let latency = timer.elapsed_ns();
            self.stats.record_allocation(self.config.chunk_size, latency);
            return Ok(MemoryChunk { data, generation: tag, origin: 0 });
        }

        let current_total = self.allocated_count + self.free_count;
        if current_total >= self.config.max_chunks {
            self.stats.record_failed_allocation();
            return Err(AllocError::PoolExhausted);
        }

        let data = crate::allocator::zero_vec(self.config.chunk_size);
        let tag = self.generation;
        self.generation = add_sat_u64(self.generation, 1);
        self.allocated_count = self.allocated_count + 1;
        self.total_memory = crate::stats::add_sat_usize(self.total_memory, self.config.chunk_size);
        let latency = timer.elapsed_ns();
        self.stats.record_allocation(self.config.chunk_size, latency);
        Ok(MemoryChunk { data, generation: tag, origin: 0 })
    }

    /// Takes a chunk back: optionally zeroes it, then queues it under a
    /// fresh generation tag, strictly larger than any tag the chunk was
    /// ever issued under while the counter has room.  Never fails.
    pub fn deallocate_chunk(&mut self, chunk: MemoryChunk)
        requires
            old(self).wf(),
            chunk.data@.len() == old(self).config.chunk_size,
            old(self).allocated_count >= 1,
        ensures
            final(self).wf(),
            final(self).config == old(self).config,
            chunk_queue_view(final(self).free_chunks) == chunk_queue_view(
                old(self).free_chunks,
            ).push(
                (
                    if old(self).config.zero_on_dealloc {
                        zero_seq(old(self).config.chunk_size as nat)
                    } else {
                        chunk.data@
                    },
                    old(self).generation,
                ),
            ),
            chunk.generation < old(self).generation ==> chunk_queue_view(
                final(self).free_chunks,
            ).last().1 > chunk.generation,
            final(self).generation == sat_add_u64(old(self).generation, 1),
            final(self).free_count == old(self).free_count + 1,
            final(self).allocated_count == old(self).allocated_count - 1,
            final(self).stats.deallocations == sat_add_u64(old(self).stats.deallocations, 1),
            final(self).stats.allocated_bytes == clamped_sub_usize(
                old(self).stats.allocated_bytes,
                old(self).config.chunk_size,
            ),
            final(self).stats.peak_bytes == old(self).stats.peak_bytes,
    {
        let MemoryChunk { mut data, generation: _, origin: _ } = chunk;
        if self.config.zero_on_dealloc {
            zero_fill(&mut data);
        }
        let tag = self.generation;
        chunk_queue_push(&mut self.free_chunks, data, tag);
        self.generation = add_sat_u64(self.generation, 1);
        self.allocated_count = self.allocated_count - 1;
        self.free_count = self.free_count + 1;
        self.stats.record_deallocation(self.config.chunk_size);
    }

    /// The pool's counters.
    pub fn get_stats(&self) -> (r: PoolStats)
        ensures
            r.allocated_chunks == self.allocated_count,
            r.free_chunks == self.free_count,
            r.total_memory_bytes == self.total_memory,
            r.chunk_size == self.config.chunk_size,
    {
        PoolStats {
            allocated_chunks: self.allocated_count,
            free_chunks: self.free_count,
            total_memory_bytes: self.total_memory,
            chunk_size: self.config.chunk_size,
        }
    }

    /// The pool's telemetry.
    pub fn get_allocation_stats(&self) -> (r: &MemoryStats)
        ensures
            *r == self.stats,
    {
        &self.stats
    }
}

impl MemoryAllocator for LockFreeMemoryPool {
    open spec fn inv(&self) -> bool {
        self.wf()
    }

    open spec fn max_size(&self) -> usize {
        self.config.chunk_size
    }

    open spec fn max_align(&self) -> usize {
        self.config.alignment
    }

    open spec fn charge(&self, size: usize) -> usize {
        self.config.chunk_size
    }

    open spec fn live_bytes(&self) -> usize {
        self.stats.allocated_bytes
    }

    open spec fn peak_bytes(&self) -> usize {
        self.stats.peak_bytes
    }

    open spec fn can_allocate(&self, size: usize) -> bool {
        chunk_queue_view(self.free_chunks).len() > 0 || self.allocated_count + self.free_count
            < self.config.max_chunks
    }

    open spec fn fits(&self, chunk: MemoryChunk, size: usize) -> bool {
        chunk.data@.len() == self.config.chunk_size && self.allocated_count >= 1
    }

    open spec fn available(&self) -> usize {
        sat_mul_usize(self.free_count, self.config.chunk_size)
    }

    open spec fn total(&self) -> usize {
        self.total_memory
    }

    proof fn lemma_fits_shape(&self, c1: MemoryChunk, c2: MemoryChunk, size: usize) {
    }

    /// Beyond the uniform contract: a well-formed request that the pool
    /// has no room for fails with `PoolExhausted`, and with nothing else.
    fn allocate(&mut self, size: usize, align: usize) -> (r: Result<MemoryChunk, AllocError>)
        ensures
            (size <= old(self).config.chunk_size && spec_power_of_two(align) && align
                <= old(self).config.alignment && !old(self).can_allocate(size)) ==> r matches Err(
                AllocError::PoolExhausted,
            ),
    {
        if size > self.config.chunk_size {
            self.stats.record_failed_allocation();
            return Err(AllocError::SizeExceeded { size, max: self.config.chunk_size });
        }
        if !power_of_two(align) || align > self.config.alignment {
            self.stats.record_failed_allocation();
            return Err(
                AllocError::AlignmentNotSupported { required: align, supported: self.config.alignment },
            );
        }
        self.allocate_chunk()
    }

    fn deallocate(&mut self, chunk: MemoryChunk, size: usize, align: usize) {
        if chunk.data.len() == self.config.chunk_size && self.allocated_count >= 1 {
            self.deallocate_chunk(chunk);
        }
    }

    fn max_alignment(&self) -> (r: usize) {
        self.config.alignment
    }

    fn available_memory(&self) -> (r: usize) {
        mul_sat_usize(self.free_count, self.config.chunk_size)
    }

    fn total_memory(&self) -> (r: usize) {
        self.total_memory
    }
}

} // verus!
