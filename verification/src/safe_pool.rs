//! The safe pool: recycles owned, zero-initialized byte buffers of one
//! fixed chunk size through a lock-free free-list queue.  Exactly one
//! holder owns an allocated chunk until it is handed back.

use vstd::prelude::*;
use crossbeam::queue::SegQueue;
use crate::allocator::{
    AllocError, DEFAULT_MAX_ALIGNMENT, MemoryAllocator, power_of_two, spec_power_of_two,
    zero_seq, zero_vec, zero_fill,
};
use crate::lock_free_pool::MemoryChunk;
use crate::chunk_queue::{chunk_queue_view, chunk_queue_new, chunk_queue_push, chunk_queue_pop};
use crate::stats::{
    AllocationTimer, MemoryStats, max_usize, sat_add_u64, sat_add_usize, sat_mul_usize,
    clamped_sub_usize, mul_sat_usize,
};
use vstd::string::StringExecFns;

verus! {

/// Configuration of a safe pool.
#[derive(Clone, Copy, Debug)]
pub struct SafePoolConfig {
    /// Size in bytes of every chunk.
    pub chunk_size: usize,
    /// Chunks created up front at construction.
    pub initial_chunks: usize,
    /// Cap on the total number of chunks, recycled or handed out.
    pub max_chunks: usize,
    /// Whether a returned chunk is zeroed before it is recycled.
    pub zero_on_dealloc: bool,
}

impl Default for SafePoolConfig {
    /// 4 KiB chunks, 1024 pre-allocated, a cap of one million, no zeroing
    /// on release.
    fn default() -> (r: Self)
        ensures
            r.chunk_size == 4096,
            r.initial_chunks == 1024,
            r.max_chunks == 1_000_000,
            !r.zero_on_dealloc,
    {
        SafePoolConfig {
            chunk_size: 4096,
            initial_chunks: 1024,
            max_chunks: 1_000_000,
            zero_on_dealloc: false,
        }
    }
}

/// One owned chunk: a byte buffer and the generation tag assigned when the
/// buffer was created.
#[derive(Debug)]
pub struct SafeMemoryChunk {
    /// The chunk's bytes.
    pub data: Vec<u8>,
    /// Creation tag; the safe pool keeps it for the life of the buffer.
    pub generation: u64,
}

impl SafeMemoryChunk {
    /// A zero-initialized chunk of `size` bytes.
    fn new(size: usize, generation: u64) -> (r: Self)
        ensures
            r.data@ == zero_seq(size as nat),
            r.generation == generation,
    {
        SafeMemoryChunk { data: zero_vec(size), generation }
    }

    /// The chunk's size in bytes.
    pub fn len(&self) -> (r: usize)
        ensures
            r == self.data@.len(),
    {
        self.data.len()
    }

    /// Whether the chunk holds no bytes.
    pub fn is_empty(&self) -> (r: bool)
        ensures
            r == (self.data@.len() == 0),
    {
        self.data.len() == 0
    }
}

/// The exclusive handle to an allocated chunk: whoever holds it is the only
/// reader and writer until the chunk is handed back to the pool.
#[derive(Debug)]
pub struct SafeMemoryHandle {
    /// The owned chunk.
    pub chunk: SafeMemoryChunk,
}

impl SafeMemoryHandle {
    /// The chunk's size in bytes.
    pub fn len(&self) -> (r: usize)
        ensures
            r == self.chunk.data@.len(),
    {
        self.chunk.data.len()
    }

    /// Reads the byte at `offset`.
    pub fn read_byte(&self, offset: usize) -> (r: u8)
        requires
            offset < self.chunk.data@.len(),
        ensures
            r == self.chunk.data@[offset as int],
    {
        self.chunk.data[offset]
    }

    /// Writes the byte at `offset`.
    pub fn write_byte(&mut self, offset: usize, value: u8)
        requires
            offset < old(self).chunk.data@.len(),
        ensures
            final(self).chunk.data@ == old(self).chunk.data@.update(offset as int, value),
            final(self).chunk.generation == old(self).chunk.generation,
    {
        self.chunk.data.set(offset, value);
    }
}

/// Counters reported by `SafeMemoryPool::get_stats`.
#[derive(Debug, Clone, Copy, PartialEq, Eq, Structural)]
pub struct SafePoolStats {
    /// Chunks currently handed out.
    pub allocated_chunks: usize,
    /// Chunks waiting in the free list.
    pub free_chunks: usize,
    /// Total bytes owned by the pool, free and handed out.
    pub total_memory_bytes: usize,
    /// Size of every chunk.
    pub chunk_size: usize,
}

/// A pool of recycled byte buffers with no unsafe code anywhere: buffers
/// are owned values that move between the free list and the caller.
#[derive(Debug)]
pub struct SafeMemoryPool {
    /// The pool's configuration, fixed at construction.
    pub config: SafePoolConfig,
    /// Buffers awaiting reuse, oldest release first.
    pub free_chunks: SegQueue<(Vec<u8>, u64)>,
    /// Chunks currently handed out.
    pub allocated_count: usize,
    /// Chunks waiting in the free list; mirrors the queue length.
    pub free_count: usize,
    /// Total bytes owned by the pool.
    pub total_memory: usize,
    /// Next generation tag to assign.
    pub generation: usize,
    /// The pool's telemetry.
    pub stats: MemoryStats,
}

impl SafeMemoryPool {
    /// The pool's structural invariant: the free counter mirrors the queue,
    /// every queued buffer has the configured size and a tag older than the
    /// generation counter, zeroing on release means the whole free list is
    /// zeroed, and the chunk total respects the configured bounds.
    pub open spec fn wf(&self) -> bool {
        &&& self.config.chunk_size > 0
        &&& self.free_count == chunk_queue_view(self.free_chunks).len()
        &&& forall|i: int|
            0 <= i < chunk_queue_view(self.free_chunks).len() ==> (#[trigger] chunk_queue_view(
                self.free_chunks,
            )[i]).0.len() == self.config.chunk_size
        &&& forall|i: int|
            0 <= i < chunk_queue_view(self.free_chunks).len() ==> (#[trigger] chunk_queue_view(
                self.free_chunks,
            )[i]).1 < self.generation
        &&& self.config.zero_on_dealloc ==> forall|i: int|
            0 <= i < chunk_queue_view(self.free_chunks).len() ==> (#[trigger] chunk_queue_view(
                self.free_chunks,
            )[i]).0 == zero_seq(self.config.chunk_size as nat)
        &&& self.allocated_count + self.free_count <= max_usize(
            self.config.max_chunks,
            self.config.initial_chunks,
        )
        &&& self.generation == self.allocated_count + self.free_count
        &&& self.stats.wf()
    }

    /// Builds a pool and pre-allocates `initial_chunks` zeroed chunks.  A
    /// zero chunk size is rejected as an invalid layout, and nothing else
    /// is.
    pub fn new(config: SafePoolConfig) -> (r: Result<Self, AllocError>)
        ensures
            config.chunk_size == 0 ==> (r matches Err(AllocError::InvalidLayout(m))
                && m@ == "Chunk size must be greater than 0"@),
            config.chunk_size > 0 ==> (r matches Ok(pool) && {
                &&& pool.wf()
                &&& pool.config == config
                &&& pool.allocated_count == 0
                &&& pool.free_count == config.initial_chunks
                &&& chunk_queue_view(pool.free_chunks).len() == config.initial_chunks
                &&& forall|i: int|
                    0 <= i < config.initial_chunks ==> (#[trigger] chunk_queue_view(
                        pool.free_chunks,
                    )[i]).0 == zero_seq(config.chunk_size as nat)
                &&& pool.total_memory == crate::stats::sat_mul_usize(
                    config.initial_chunks,
                    config.chunk_size,
                )
                &&& pool.stats.is_zeroed()
            }),
    {
        if config.chunk_size == 0 {
            return Err(
                AllocError::InvalidLayout(String::from_str("Chunk size must be greater than 0")),
            );
        }
        let mut pool = SafeMemoryPool {
            config,
            free_chunks: chunk_queue_new(),
            allocated_count: 0,
            free_count: 0,
            total_memory: 0,
            generation: 0,
            stats: MemoryStats::new(),
        };
        pool.preallocate_chunks(config.initial_chunks);
        Ok(pool)
    }

    /// Creates `count` zeroed chunks on the free list of a fresh pool.
    fn preallocate_chunks(&mut self, count: usize)
        requires
            old(self).config.chunk_size > 0,
            old(self).allocated_count == 0,
            old(self).free_count == 0,
            old(self).generation == 0,
            chunk_queue_view(old(self).free_chunks).len() == 0,
            old(self).total_memory == 0,
            old(self).stats.wf(),
            count <= max_usize(old(self).config.max_chunks, old(self).config.initial_chunks),
        ensures
            final(self).wf(),
            final(self).config == old(self).config,
            final(self).allocated_count == 0,
            final(self).free_count == count,
            final(self).total_memory == crate::stats::sat_mul_usize(
                count,
                old(self).config.chunk_size,
            ),
            chunk_queue_view(final(self).free_chunks).len() == count,
            forall|i: int|
                0 <= i < count ==> (#[trigger] chunk_queue_view(final(self).free_chunks)[i]).0
                    == zero_seq(old(self).config.chunk_size as nat),
            final(self).stats == old(self).stats,
    {
        let mut created: usize = 0;
        while created < count
            invariant
                self.config == old(self).config,
                self.config.chunk_size > 0,
                self.allocated_count == 0,
                created <= count,
                count <= max_usize(self.config.max_chunks, self.config.initial_chunks),
                self.free_count == created,
                self.generation == created,
                chunk_queue_view(self.free_chunks).len() == created,
                forall|i: int|
                    0 <= i < created ==> (#[trigger] chunk_queue_view(self.free_chunks)[i]).0
                        == zero_seq(self.config.chunk_size as nat),
                forall|i: int|
                    0 <= i < created ==> (#[trigger] chunk_queue_view(self.free_chunks)[i]).1
                        < self.generation,
                self.total_memory == crate::stats::sat_mul_usize(created, self.config.chunk_size),
                self.stats == old(self).stats,
                self.stats.wf(),
            decreases count - created,
        {
            let generation = self.generation;
            let chunk = SafeMemoryChunk::new(self.config.chunk_size, generation as u64);
            chunk_queue_push(&mut self.free_chunks, chunk.data, chunk.generation);
            self.generation = self.generation + 1;
            self.free_count = self.free_count + 1;
            proof {
                crate::stats::lemma_sat_mul_step(created, self.config.chunk_size);
            }
            self.total_memory = crate::stats::add_sat_usize(
                self.total_memory,
                self.config.chunk_size,
            );
            created = created + 1;
        }
    }

    /// Hands out a chunk: the oldest recycled buffer if one is free, or a
    /// newly created zeroed buffer while the pool is below its cap.  Fails
    /// with `PoolExhausted` exactly when the free list is empty and the cap
    /// is reached; the failure is counted in the telemetry.
    pub fn allocate_chunk(&mut self) -> (r: Result<SafeMemoryHandle, AllocError>)
        requires
            old(self).wf(),
        ensures
            final(self).wf(),
            final(self).config == old(self).config,
            ({
                let v = chunk_queue_view(old(self).free_chunks);
                let total = old(self).allocated_count + old(self).free_count;
                if v.len() > 0 {
                    &&& r matches Ok(h)
                    &&& h.chunk.data@ == v[0].0
                    &&& h.chunk.generation == v[0].1
                    &&& h.chunk.data@.len() == old(self).config.chunk_size
                    &&& h.chunk.generation < final(self).generation
                    &&& old(self).config.zero_on_dealloc ==> h.chunk.data@ == zero_seq(
                        old(self).config.chunk_size as nat,
                    )
                    &&& chunk_queue_view(final(self).free_chunks) == v.drop_first()
                    &&& final(self).free_count == old(self).free_count - 1
                    &&& final(self).allocated_count == old(self).allocated_count + 1
                    &&& final(self).stats.allocations == sat_add_u64(old(self).stats.allocations, 1)
                    &&& final(self).stats.allocated_bytes == sat_add_usize(
                        old(self).stats.allocated_bytes,
                        old(self).config.chunk_size,
                    )
                    &&& final(self).stats.peak_bytes == max_usize(
                        old(self).stats.peak_bytes,
                        final(self).stats.allocated_bytes,
                    )
                } else if total >= old(self).config.max_chunks {
                    &&& r matches Err(AllocError::PoolExhausted)
                    &&& chunk_queue_view(final(self).free_chunks) == v
                    &&& final(self).allocated_count == old(self).allocated_count
                    &&& final(self).free_count == old(self).free_count
                    &&& final(self).stats.failed_allocations == sat_add_u64(
                        old(self).stats.failed_allocations,
                        1,
                    )
                    &&& final(self).stats.allocations == old(self).stats.allocations
                    &&& final(self).stats.allocated_bytes == old(self).stats.allocated_bytes
                    &&& final(self).stats.peak_bytes == old(self).stats.peak_bytes
                } else {
                    &&& r matches Ok(h)
                    &&& h.chunk.data@ == zero_seq(old(self).config.chunk_size as nat)
                    &&& h.chunk.generation == old(self).generation as u64
                    &&& h.chunk.generation < final(self).generation
                    &&& chunk_queue_view(final(self).free_chunks) == v
                    &&& final(self).free_count == old(self).free_count
                    &&& final(self).allocated_count == old(self).allocated_count + 1
                    &&& final(self).stats.allocations == sat_add_u64(old(self).stats.allocations, 1)
                    &&& final(self).stats.allocated_bytes == sat_add_usize(
                        old(self).stats.allocated_bytes,
                        old(self).config.chunk_size,
                    )
                    &&& final(self).stats.peak_bytes == max_usize(
                        old(self).stats.peak_bytes,
                        final(self).stats.allocated_bytes,
                    )
                }
            }),
    {
        let timer = AllocationTimer::start();

        if let Some((data, tag)) = chunk_queue_pop(&mut self.free_chunks) {
            self.free_count = self.free_count - 1;
            self.allocated_count = self.allocated_count + 1;
            let latency = timer.elapsed_ns();
            self.stats.record_allocation(self.config.chunk_size, latency);
            return Ok(SafeMemoryHandle { chunk: SafeMemoryChunk { data, generation: tag } });
        }

        let current_total = self.allocated_count + self.free_count;
        if current_total >= self.config.max_chunks {
            self.stats.record_failed_allocation();
            return Err(AllocError::PoolExhausted);
        }

        let generation = self.generation;
        let chunk = SafeMemoryChunk::new(self.config.chunk_size, generation as u64);
        self.generation = self.generation + 1;
        self.allocated_count = self.allocated_count + 1;
        self.total_memory = crate::stats::add_sat_usize(self.total_memory, self.config.chunk_size);
        let latency = timer.elapsed_ns();
        self.stats.record_allocation(self.config.chunk_size, latency);
        Ok(SafeMemoryHandle { chunk })
    }

    /// Takes a chunk back: optionally zeroes it, then queues it for reuse.
    /// Never fails.  The handle must have come from this pool, so its
    /// buffer has the configured size and its tag predates the generation
    /// counter.
    pub fn deallocate_chunk(&mut self, handle: SafeMemoryHandle)
        requires
            old(self).wf(),
            handle.chunk.data@.len() == old(self).config.chunk_size,
            handle.chunk.generation < old(self).generation,
            old(self).allocated_count >= 1,
        ensures
            final(self).wf(),
            final(self).config == old(self).config,
            chunk_queue_view(final(self).free_chunks) == chunk_queue_view(
                old(self).free_chunks,
            ).push(
                (
                    if old(self).config.zero_on_dealloc {
                        zero_seq(old(self).config.chunk_size as nat)
                    } else {
                        handle.chunk.data@
                    },
                    handle.chunk.generation,
                ),
            ),
            final(self).free_count == old(self).free_count + 1,
            final(self).allocated_count == old(self).allocated_count - 1,
            final(self).stats.deallocations == sat_add_u64(old(self).stats.deallocations, 1),
            final(self).stats.allocated_bytes == clamped_sub_usize(
                old(self).stats.allocated_bytes,
                old(self).config.chunk_size,
            ),
            final(self).stats.peak_bytes == old(self).stats.peak_bytes,
    {
        let SafeMemoryHandle { chunk } = handle;
        let SafeMemoryChunk { mut data, generation } = chunk;
        if self.config.zero_on_dealloc {
            zero_fill(&mut data);
        }
        chunk_queue_push(&mut self.free_chunks, data, generation);
        self.allocated_count = self.allocated_count - 1;
        self.free_count = self.free_count + 1;
        self.stats.record_deallocation(self.config.chunk_size);
    }

    /// The pool's counters.
    pub fn get_stats(&self) -> (r: SafePoolStats)
        ensures
            r.allocated_chunks == self.allocated_count,
            r.free_chunks == self.free_count,
            r.total_memory_bytes == self.total_memory,
            r.chunk_size == self.config.chunk_size,
    {
        SafePoolStats {
            allocated_chunks: self.allocated_count,
            free_chunks: self.free_count,
            total_memory_bytes: self.total_memory,
            chunk_size: self.config.chunk_size,
        }
    }
}

impl MemoryAllocator for SafeMemoryPool {
    open spec fn inv(&self) -> bool {
        self.wf()
    }

    open spec fn max_size(&self) -> usize {
        self.config.chunk_size
    }

    open spec fn max_align(&self) -> usize {
        DEFAULT_MAX_ALIGNMENT
    }

    open spec fn charge(&self, size: usize) -> usize {
        self.config.chunk_size
    }

    open spec fn live_bytes(&self) -> usize {
        self.stats.allocated_bytes
    }

    open spec fn peak_bytes(&self) -> usize {
        self.stats.peak_bytes
    }

    open spec fn can_allocate(&self, size: usize) -> bool {
        chunk_queue_view(self.free_chunks).len() > 0 || self.allocated_count + self.free_count
            < self.config.max_chunks
    }

    open spec fn fits(&self, chunk: MemoryChunk, size: usize) -> bool {
        chunk.data@.len() == self.config.chunk_size && chunk.generation < self.generation
            && self.allocated_count >= 1
    }

    open spec fn available(&self) -> usize {
        sat_mul_usize(self.free_count, self.config.chunk_size)
    }

    open spec fn total(&self) -> usize {
        self.total_memory
    }

    proof fn lemma_fits_shape(&self, c1: MemoryChunk, c2: MemoryChunk, size: usize) {
    }

    /// Beyond the uniform contract: a well-formed request that the pool
    /// has no room for fails with `PoolExhausted`, and with nothing else.
    fn allocate(&mut self, size: usize, align: usize) -> (r: Result<MemoryChunk, AllocError>)
        ensures
            (size <= old(self).config.chunk_size && spec_power_of_two(align) && align
                <= DEFAULT_MAX_ALIGNMENT && !old(self).can_allocate(size)) ==> r matches Err(
                AllocError::PoolExhausted,
            ),
    {
        if size > self.config.chunk_size {
            self.stats.record_failed_allocation();
            return Err(AllocError::SizeExceeded { size, max: self.config.chunk_size });
        }
        if !power_of_two(align) || align > DEFAULT_MAX_ALIGNMENT {
            self.stats.record_failed_allocation();
            return Err(
                AllocError::AlignmentNotSupported {
                    required: align,
                    supported: DEFAULT_MAX_ALIGNMENT,
                },
            );
        }
        match self.allocate_chunk() {
            Ok(handle) => {
                let SafeMemoryHandle { chunk } = handle;
                Ok(MemoryChunk { data: chunk.data, generation: chunk.generation, origin: 0 })
            },
            Err(e) => Err(e),
        }
    }

    fn deallocate(&mut self, chunk: MemoryChunk, size: usize, align: usize) {
        if chunk.data.len() == self.config.chunk_size && chunk.generation < (self.generation
            as u64) && self.allocated_count >= 1 {
            let MemoryChunk { data, generation, origin: _ } = chunk;
            self.deallocate_chunk(SafeMemoryHandle { chunk: SafeMemoryChunk { data, generation } });
        }
    }

    /// The safe pool refuses `reallocate`: moving bytes between regions is
    /// left to the fast backends, and the region is handed back untouched.
    fn reallocate(&mut self, chunk: &mut MemoryChunk, old_size: usize, new_size: usize, align:
        usize) -> (r: Result<(), AllocError>)
        ensures
            r matches Err(AllocError::UnsupportedOperation(_)),
            *final(self) == *old(self),
    {
        Err(
            AllocError::UnsupportedOperation(
                String::from_str("reallocate is not available in the safe backend"),
            ),
        )
    }

    fn max_alignment(&self) -> (r: usize) {
        DEFAULT_MAX_ALIGNMENT
    }

    fn available_memory(&self) -> (r: usize) {
        mul_sat_usize(self.free_count, self.config.chunk_size)
    }

    fn total_memory(&self) -> (r: usize) {
        self.total_memory
    }
}

} // verus!
