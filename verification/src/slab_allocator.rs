//! The slab allocator: a doubling ladder of size classes, each with a
//! free list of pre-allocated blocks.  Every block the allocator will ever
//! own is created at construction; at steady state it only moves blocks
//! between the free lists and the callers, so the worst case is bounded.

use vstd::prelude::*;
use crossbeam::queue::SegQueue;
use crate::allocator::{
    AllocError, DEFAULT_MAX_ALIGNMENT, MemoryAllocator, power_of_two, spec_power_of_two,
    zero_vec,
};
use crate::chunk_queue::{chunk_queue_view, chunk_queue_new, chunk_queue_push, chunk_queue_pop};
use crate::lock_free_pool::MemoryChunk;
use crate::stats::{
    add_sat_usize, max_usize, mul_sat_usize, sat_add_usize, sat_mul_usize, sub_clamped_usize,
    clamped_sub_usize,
};
use vstd::string::StringExecFns;

verus! {

/// Configuration of a slab allocator.
#[derive(Clone, Copy, Debug)]
pub struct SlabConfig {
    /// Smallest size class.
    pub min_object_size: usize,
    /// Largest size a request may ask for; classes double up to it.
    pub max_object_size: usize,
    /// Advisory objects-per-slab figure; kept for configuration parity.
    pub objects_per_slab: usize,
    /// Blocks pre-allocated on every class's free list.
    pub pre_allocate_slabs: usize,
    /// Whether blocks are laid out cache-line aligned.
    pub cache_align: bool,
}

impl Default for SlabConfig {
    /// Classes from 64 bytes to 8 KiB, 100 blocks per class, cache-line
    /// aligned.
    fn default() -> (r: Self)
        ensures
            r.min_object_size == 64,
            r.max_object_size == 8192,
            r.objects_per_slab == 1024,
            r.pre_allocate_slabs == 100,
            r.cache_align,
    {
        SlabConfig {
            min_object_size: 64,
            max_object_size: 8192,
            objects_per_slab: 1024,
            pre_allocate_slabs: 100,
            cache_align: true,
        }
    }
}

/// Counters reported by `SlabAllocator::get_stats`.
#[derive(Debug, Clone, Copy, PartialEq, Eq, Structural)]
pub struct SlabStats {
    /// Objects handed out over the allocator's life.
    pub allocated_objects: usize,
    /// Objects returned over the allocator's life.
    pub freed_objects: usize,
    /// Total bytes owned by the allocator.
    pub total_memory: usize,
    /// Number of size classes.
    pub size_classes: usize,
}

/// The first class index in `classes` whose size covers `size`, or the
/// sequence's length when none does.
pub open spec fn spec_first_class(classes: Seq<usize>, size: usize) -> int
    decreases classes.len(),
{
    if classes.len() == 0 {
        0
    } else if classes.first() >= size {
        0
    } else {
        1 + spec_first_class(classes.drop_first(), size)
    }
}

/// A scan that passed only undersized classes and stopped at a covering
/// one stopped exactly at the first covering class.
proof fn lemma_first_class_at(classes: Seq<usize>, size: usize, i: int)
    requires
        0 <= i <= classes.len(),
        forall|j: int| 0 <= j < i ==> classes[j] < size,
        i < classes.len() ==> classes[i] >= size,
    ensures
        i < classes.len() ==> spec_first_class(classes, size) == i,
        i == classes.len() ==> spec_first_class(classes, size) == classes.len(),
    decreases classes.len(),
{
    if classes.len() == 0 {
    } else if classes.first() >= size {
        assert(i == 0);
    } else {
        assert(i >= 1);
        lemma_first_class_at(classes.drop_first(), size, i - 1);
    }
}

/// The first covering class lies within bounds and covers the size, and
/// nothing before it does.
proof fn lemma_first_class_ensures(classes: Seq<usize>, size: usize)
    ensures
        0 <= spec_first_class(classes, size) <= classes.len(),
        spec_first_class(classes, size) < classes.len() ==> classes[spec_first_class(
            classes,
            size,
        )] >= size,
        forall|j: int| 0 <= j < spec_first_class(classes, size) ==> classes[j] < size,
    decreases classes.len(),
{
    if classes.len() == 0 {
    } else if classes.first() >= size {
    } else {
        lemma_first_class_ensures(classes.drop_first(), size);
        assert forall|j: int|
            0 <= j < spec_first_class(classes, size) implies classes[j] < size by {
            if j > 0 {
                assert(classes.drop_first()[j - 1] < size);
            }
        }
    }
}

/// In a doubling ladder — the shape `classes_wf` guarantees — every class
/// is the minimum times a power of two.
pub proof fn lemma_size_class_value(s: Seq<usize>, min: usize, i: int)
    requires
        min >= 1,
        s.len() > 0 ==> s[0] == min,
        forall|j: int| 0 <= j < s.len() - 1 ==> #[trigger] s[j + 1] == 2 * s[j],
        0 <= i < s.len(),
    ensures
        s[i] == min * vstd::arithmetic::power2::pow2(i as nat),
    decreases i,
{
    if i == 0 {
        assert(vstd::arithmetic::power2::pow2(0) == 1) by {
            vstd::arithmetic::power2::lemma2_to64();
        }
    } else {
        lemma_size_class_value(s, min, i - 1);
        vstd::arithmetic::power2::lemma_pow2_unfold(i as nat);
        assert(s[(i - 1) + 1] == 2 * s[i - 1]);
        assert(min * vstd::arithmetic::power2::pow2(i as nat) == 2 * (min
            * vstd::arithmetic::power2::pow2((i - 1) as nat))) by (nonlinear_arith)
            requires vstd::arithmetic::power2::pow2(i as nat) == 2
                * vstd::arithmetic::power2::pow2((i - 1) as nat),
        ;
    }
}

/// The size classes of a doubling ladder are strictly increasing.
pub proof fn lemma_size_classes_strictly_increasing(s: Seq<usize>, min: usize, i: int, j: int)
    requires
        min >= 1,
        s.len() > 0 ==> s[0] == min,
        forall|k: int| 0 <= k < s.len() - 1 ==> #[trigger] s[k + 1] == 2 * s[k],
        0 <= i < j < s.len(),
    ensures
        s[i] < s[j],
    decreases j - i,
{
    lemma_size_class_value(s, min, i);
    vstd::arithmetic::power2::lemma_pow2_pos(i as nat);
    assert(s[i] >= 1) by (nonlinear_arith)
        requires
            s[i] == min * vstd::arithmetic::power2::pow2(i as nat),
            min >= 1,
            vstd::arithmetic::power2::pow2(i as nat) >= 1,
    ;
    if j == i + 1 {
        assert(s[j] == 2 * s[i]);
    } else {
        lemma_size_classes_strictly_increasing(s, min, i + 1, j);
        assert(s[i + 1] == 2 * s[i]);
    }
}

/// When the minimum object size is itself a power of two, so is every
/// size class of the ladder.
pub proof fn lemma_size_classes_power_of_two(s: Seq<usize>, min: usize, m: nat, i: int)
    requires
        min >= 1,
        min == vstd::arithmetic::power2::pow2(m),
        s.len() > 0 ==> s[0] == min,
        forall|k: int| 0 <= k < s.len() - 1 ==> #[trigger] s[k + 1] == 2 * s[k],
        0 <= i < s.len(),
    ensures
        s[i] == vstd::arithmetic::power2::pow2((m + i) as nat),
    decreases i,
{
    lemma_size_class_value(s, min, i);
    vstd::arithmetic::power2::lemma_pow2_adds(m, i as nat);
}

/// The slab allocator.
#[derive(Debug)]
pub struct SlabAllocator {
    /// The allocator's configuration, fixed at construction.
    pub config: SlabConfig,
    /// One free list per size class, each holding blocks of exactly that
    /// class's size, tagged with the class size.
    pub free_blocks: Vec<SegQueue<(Vec<u8>, u64)>>,
    /// The size classes, doubling from the smallest.
    pub size_classes: Vec<usize>,
    /// Blocks currently handed out, per class.
    pub in_use: Vec<usize>,
    /// Bytes currently handed out.
    pub in_use_bytes: usize,
    /// Peak watermark of `in_use_bytes`.
    pub peak_in_use_bytes: usize,
    /// Objects handed out over the allocator's life.
    pub allocated_count: usize,
    /// Objects returned over the allocator's life.
    pub freed_count: usize,
    /// Total bytes owned by the allocator, fixed at construction.
    pub total_memory: usize,
}

impl SlabAllocator {
    /// The size classes double from the minimum and stay within the
    /// configured maximum.
    pub open spec fn classes_wf(&self) -> bool {
        &&& self.config.min_object_size >= 1
        &&& (self.size_classes@.len() == 0 <==> self.config.min_object_size
            > self.config.max_object_size)
        &&& self.size_classes@.len() > 0 ==> self.size_classes@[0] == self.config.min_object_size
        &&& forall|i: int|
            0 <= i < self.size_classes@.len() - 1 ==> #[trigger] self.size_classes@[i + 1] == 2
                * self.size_classes@[i]
        &&& forall|i: int|
            0 <= i < self.size_classes@.len() ==> self.config.min_object_size <= (
            #[trigger] self.size_classes@[i]) <= self.config.max_object_size
        &&& self.size_classes@.len() > 0 ==> 2 * self.size_classes@.last()
            > self.config.max_object_size
    }

    /// The structural invariant: well-formed classes, one free list and
    /// one in-use counter per class, every queued block sized and tagged
    /// by its class, and — the conservation law — free plus in-use blocks
    /// of every class always equal the pre-allocated count.
    pub open spec fn wf(&self) -> bool {
        &&& self.classes_wf()
        &&& self.free_blocks@.len() == self.size_classes@.len()
        &&& self.in_use@.len() == self.size_classes@.len()
        &&& forall|c: int, i: int|
            0 <= c < self.free_blocks@.len() && 0 <= i < chunk_queue_view(
                self.free_blocks@[c],
            ).len() ==> (#[trigger] chunk_queue_view(self.free_blocks@[c])[i]).0.len()
                == self.size_classes@[c]
        &&& forall|c: int|
            0 <= c < self.free_blocks@.len() ==> chunk_queue_view(#[trigger] self.free_blocks@[c]).len()
                + self.in_use@[c] == self.config.pre_allocate_slabs
        &&& self.in_use_bytes <= self.peak_in_use_bytes
    }

    /// Builds the class ladder and pre-allocates every block.  A zero
    /// minimum object size is rejected as an invalid layout; a minimum
    /// above the maximum yields an allocator with no classes that refuses
    /// every request.
    pub fn new(config: SlabConfig) -> (r: Result<Self, AllocError>)
        ensures
            config.min_object_size == 0 ==> (r matches Err(AllocError::InvalidLayout(m)) && m@
                == "Minimum object size must be greater than 0"@),
            config.min_object_size >= 1 ==> (r matches Ok(slab) && {
                &&& slab.wf()
                &&& slab.config == config
                &&& slab.in_use_bytes == 0
                &&& slab.peak_in_use_bytes == 0
                &&& slab.allocated_count == 0
                &&& slab.freed_count == 0
                &&& forall|c: int|
                    0 <= c < slab.free_blocks@.len() ==> chunk_queue_view(
                        #[trigger] slab.free_blocks@[c],
                    ).len() == config.pre_allocate_slabs
            }),
    {
        if config.min_object_size == 0 {
            return Err(
                AllocError::InvalidLayout(
                    String::from_str("Minimum object size must be greater than 0"),
                ),
            );
        }

        let mut size_classes: Vec<usize> = Vec::new();
        if config.min_object_size <= config.max_object_size {
            let mut size = config.min_object_size;
            size_classes.push(size);
            while size <= config.max_object_size / 2
                invariant
                    1 <= config.min_object_size <= config.max_object_size,
                    size_classes@.len() >= 1,
                    size_classes@[0] == config.min_object_size,
                    forall|i: int|
                        0 <= i < size_classes@.len() - 1 ==> #[trigger] size_classes@[i + 1] == 2
                            * size_classes@[i],
                    size == size_classes@.last(),
                    forall|i: int|
                        0 <= i < size_classes@.len() ==> config.min_object_size <= (
                        #[trigger] size_classes@[i]) <= config.max_object_size,
                decreases config.max_object_size - size,
            {
                size = size * 2;
                size_classes.push(size);
            }
        }

        let n_classes = size_classes.len();
        let mut free_blocks: Vec<SegQueue<(Vec<u8>, u64)>> = Vec::new();
        let mut in_use: Vec<usize> = Vec::new();
        let mut total_memory: usize = 0;
        let mut c: usize = 0;
        while c < n_classes
            invariant
                n_classes == size_classes@.len(),
                c <= n_classes,
                free_blocks@.len() == c,
                in_use@.len() == c,
                forall|k: int| 0 <= k < c ==> #[trigger] in_use@[k] == 0usize,
                forall|k: int|
                    0 <= k < c ==> chunk_queue_view(#[trigger] free_blocks@[k]).len()
                        == config.pre_allocate_slabs,
                forall|k: int, i: int|
                    0 <= k < c && 0 <= i < chunk_queue_view(free_blocks@[k]).len() ==> (
                    #[trigger] chunk_queue_view(free_blocks@[k])[i]).0.len() == size_classes@[k],
            decreases n_classes - c,
        {
            let class_size = size_classes[c];
            let mut queue = chunk_queue_new();
            let mut filled: usize = 0;
            while filled < config.pre_allocate_slabs
                invariant
                    filled <= config.pre_allocate_slabs,
                    chunk_queue_view(queue).len() == filled,
                    forall|i: int|
                        0 <= i < chunk_queue_view(queue).len() ==> (#[trigger] chunk_queue_view(
                            queue,
                        )[i]).0.len() == class_size,
                decreases config.pre_allocate_slabs - filled,
            {
                let data = zero_vec(class_size);
                chunk_queue_push(&mut queue, data, class_size as u64);
                total_memory = add_sat_usize(total_memory, class_size);
                filled = filled + 1;
            }
            free_blocks.push(queue);
            in_use.push(0);
            c = c + 1;
        }

        Ok(
            SlabAllocator {
                config,
                free_blocks,
                size_classes,
                in_use,
                in_use_bytes: 0,
                peak_in_use_bytes: 0,
                allocated_count: 0,
                freed_count: 0,
                total_memory,
            },
        )
    }

    /// The smallest class that covers `size`, by linear scan; classes are
    /// few.
    pub fn get_size_class_index(&self, size: usize) -> (r: Option<usize>)
        ensures
            match r {
                Some(c) => c == spec_first_class(self.size_classes@, size) && c
                    < self.size_classes@.len() && self.size_classes@[c as int] >= size,
                None => spec_first_class(self.size_classes@, size) == self.size_classes@.len(),
            },
    {
        let n = self.size_classes.len();
        let mut i: usize = 0;
        while i < n
            invariant
                n == self.size_classes@.len(),
                i <= n,
                forall|j: int| 0 <= j < i ==> self.size_classes@[j] < size,
            decreases n - i,
        {
            if self.size_classes[i] >= size {
                proof {
                    lemma_first_class_at(self.size_classes@, size, i as int);
                }
                return Some(i);
            }
            i = i + 1;
        }
        proof {
            lemma_first_class_at(self.size_classes@, size, n as int);
        }
        None
    }

    /// Hands out one block from the smallest class that covers `size`.
    /// A request no class covers fails with `SizeExceeded`; an empty
    /// class fails with `PoolExhausted`.  No new memory is ever created
    /// here: a success moves one pre-allocated block out of its free
    /// list, and the per-class conservation of `wf` is preserved.
    pub fn allocate_object(&mut self, size: usize) -> (r: Result<MemoryChunk, AllocError>)
        requires
            old(self).wf(),
        ensures
            final(self).wf(),
            final(self).config == old(self).config,
            final(self).size_classes == old(self).size_classes,
            final(self).total_memory == old(self).total_memory,
            final(self).peak_in_use_bytes >= old(self).peak_in_use_bytes,
            ({
                let c = spec_first_class(old(self).size_classes@, size);
                if c == old(self).size_classes@.len() {
                    &&& r matches Err(AllocError::SizeExceeded { size: s, max })
                        && s == size && max == old(self).config.max_object_size
                    &&& *final(self) == *old(self)
                } else if chunk_queue_view(old(self).free_blocks@[c]).len() == 0 {
                    &&& r matches Err(AllocError::PoolExhausted)
                    &&& final(self).free_blocks@.len() == old(self).free_blocks@.len()
                    &&& forall|k: int|
                        0 <= k < old(self).free_blocks@.len() ==> chunk_queue_view(
                            #[trigger] final(self).free_blocks@[k],
                        ) == chunk_queue_view(old(self).free_blocks@[k])
                    &&& final(self).in_use == old(self).in_use
                    &&& final(self).in_use_bytes == old(self).in_use_bytes
                    &&& final(self).allocated_count == old(self).allocated_count
                    &&& final(self).freed_count == old(self).freed_count
                    &&& final(self).peak_in_use_bytes == old(self).peak_in_use_bytes
                } else {
                    &&& r matches Ok(chunk)
                    &&& chunk.data@ == chunk_queue_view(old(self).free_blocks@[c])[0].0
                    &&& chunk.data@.len() == old(self).size_classes@[c]
                    &&& chunk.data@.len() >= size
                    &&& chunk.origin == 0
                    &&& chunk_queue_view(final(self).free_blocks@[c]) == chunk_queue_view(
                        old(self).free_blocks@[c],
                    ).drop_first()
                    &&& forall|k: int|
                        0 <= k < old(self).free_blocks@.len() && k != c ==> final(self).free_blocks@[k] == old(self).free_blocks@[k]
                    &&& final(self).in_use@[c] == old(self).in_use@[c] + 1
                    &&& final(self).in_use_bytes == sat_add_usize(
                        old(self).in_use_bytes,
                        old(self).size_classes@[c],
                    )
                    &&& final(self).peak_in_use_bytes == max_usize(
                        old(self).peak_in_use_bytes,
                        final(self).in_use_bytes,
                    )
                    &&& final(self).allocated_count == sat_add_usize(old(self).allocated_count, 1)
                }
            }),
    {
        let class_idx = match self.get_size_class_index(size) {
            Some(c) => c,
            None => {
                return Err(
                    AllocError::SizeExceeded { size, max: self.config.max_object_size },
                );
            },
        };

        let mut queue = self.free_blocks.remove(class_idx);
        match chunk_queue_pop(&mut queue) {
            Some((data, _tag)) => {
                self.free_blocks.insert(class_idx, queue);
                proof {
                    assert(self.free_blocks@ =~= old(self).free_blocks@.update(
                        class_idx as int,
                        self.free_blocks@[class_idx as int],
                    ));
                }
                let class_size = self.size_classes[class_idx];
                let occupied = self.in_use[class_idx];
                self.in_use.set(class_idx, occupied + 1);
                self.in_use_bytes = add_sat_usize(self.in_use_bytes, class_size);
                if self.in_use_bytes > self.peak_in_use_bytes {
                    self.peak_in_use_bytes = self.in_use_bytes;
                }
                self.allocated_count = add_sat_usize(self.allocated_count, 1);
                Ok(MemoryChunk { data, generation: 0, origin: 0 })
            },
            None => {
                self.free_blocks.insert(class_idx, queue);
                proof {
                    assert(forall|k: int|
                        0 <= k < old(self).free_blocks@.len() && k != class_idx
                            ==> #[trigger] self.free_blocks@[k] == old(self).free_blocks@[k]);
                    assert(chunk_queue_view(self.free_blocks@[class_idx as int])
                        == chunk_queue_view(old(self).free_blocks@[class_idx as int]));
                }
                Err(AllocError::PoolExhausted)
            },
        }
    }

    /// Returns a block to the free list of the class that covers `size`.
    /// The block must have come from this allocator against the same
    /// size, so it has that class's exact size and the class has a block
    /// out; the per-class conservation of `wf` is preserved.
    pub fn deallocate_object(&mut self, chunk: MemoryChunk, size: usize)
        requires
            old(self).wf(),
            spec_first_class(old(self).size_classes@, size) < old(self).size_classes@.len(),
            chunk.data@.len() == old(self).size_classes@[spec_first_class(
                old(self).size_classes@,
                size,
            )],
            old(self).in_use@[spec_first_class(old(self).size_classes@, size)] >= 1,
        ensures
            final(self).wf(),
            final(self).config == old(self).config,
            final(self).size_classes == old(self).size_classes,
            final(self).total_memory == old(self).total_memory,
            final(self).peak_in_use_bytes == old(self).peak_in_use_bytes,
            ({
                let c = spec_first_class(old(self).size_classes@, size);
                &&& chunk_queue_view(final(self).free_blocks@[c]) == chunk_queue_view(
                    old(self).free_blocks@[c],
                ).push((chunk.data@, old(self).size_classes@[c] as u64))
                &&& forall|k: int|
                    0 <= k < old(self).free_blocks@.len() && k != c ==> final(self).free_blocks@[k]
                        == old(self).free_blocks@[k]
                &&& final(self).in_use@[c] == old(self).in_use@[c] - 1
                &&& final(self).in_use_bytes == clamped_sub_usize(
                    old(self).in_use_bytes,
                    old(self).size_classes@[c],
                )
                &&& final(self).freed_count == sat_add_usize(old(self).freed_count, 1)
            }),
    {
        let class_idx = match self.get_size_class_index(size) {
            Some(c) => c,
            None => {
                proof {
                    assert(false);
                }
                return ;
            },
        };
        let class_size = self.size_classes[class_idx];
        let mut queue = self.free_blocks.remove(class_idx);
        let MemoryChunk { data, generation: _, origin: _ } = chunk;
        chunk_queue_push(&mut queue, data, class_size as u64);
        self.free_blocks.insert(class_idx, queue);
        proof {
            assert(self.free_blocks@ =~= old(self).free_blocks@.update(
                class_idx as int,
                self.free_blocks@[class_idx as int],
            ));
        }
        let occupied = self.in_use[class_idx];
        self.in_use.set(class_idx, occupied - 1);
        self.in_use_bytes = sub_clamped_usize(self.in_use_bytes, class_size);
        self.freed_count = add_sat_usize(self.freed_count, 1);
    }

    /// The allocator's counters.
    pub fn get_stats(&self) -> (r: SlabStats)
        ensures
            r.allocated_objects == self.allocated_count,
            r.freed_objects == self.freed_count,
            r.total_memory == self.total_memory,
            r.size_classes == self.size_classes@.len(),
    {
        SlabStats {
            allocated_objects: self.allocated_count,
            freed_objects: self.freed_count,
            total_memory: self.total_memory,
            size_classes: self.size_classes.len(),
        }
    }

    /// Free bytes over the first `c` classes, each class contributing its
    /// free-list length times its size.
    pub open spec fn spec_free_bytes(&self, c: int) -> usize
        decreases c,
    {
        if c <= 0 {
            0usize
        } else {
            sat_add_usize(
                self.spec_free_bytes(c - 1),
                sat_mul_usize(
                    chunk_queue_view(self.free_blocks@[c - 1]).len() as usize,
                    self.size_classes@[c - 1],
                ),
            )
        }
    }
}

impl MemoryAllocator for SlabAllocator {
    open spec fn inv(&self) -> bool {
        self.wf()
    }

    open spec fn max_size(&self) -> usize {
        self.config.max_object_size
    }

    open spec fn max_align(&self) -> usize {
        DEFAULT_MAX_ALIGNMENT
    }

    open spec fn charge(&self, size: usize) -> usize {
        if spec_first_class(self.size_classes@, size) < self.size_classes@.len() {
            self.size_classes@[spec_first_class(self.size_classes@, size)]
        } else {
            0usize
        }
    }

    open spec fn live_bytes(&self) -> usize {
        self.in_use_bytes
    }

    open spec fn peak_bytes(&self) -> usize {
        self.peak_in_use_bytes
    }

    open spec fn can_allocate(&self, size: usize) -> bool {
        spec_first_class(self.size_classes@, size) < self.size_classes@.len()
            && chunk_queue_view(
            self.free_blocks@[spec_first_class(self.size_classes@, size)],
        ).len() > 0
    }

    open spec fn fits(&self, chunk: MemoryChunk, size: usize) -> bool {
        spec_first_class(self.size_classes@, size) < self.size_classes@.len()
            && chunk.data@.len() == self.size_classes@[spec_first_class(self.size_classes@, size)]
            && self.in_use@[spec_first_class(self.size_classes@, size)] >= 1
    }

    open spec fn available(&self) -> usize {
        self.spec_free_bytes(self.free_blocks@.len() as int)
    }

    open spec fn total(&self) -> usize {
        self.total_memory
    }

    proof fn lemma_fits_shape(&self, c1: MemoryChunk, c2: MemoryChunk, size: usize) {
    }

    /// Beyond the uniform contract: a request within bounds that no class
    /// covers fails with `SizeExceeded` carrying the configured maximum,
    /// and a covered request whose class is empty fails with
    /// `PoolExhausted`.
    fn allocate(&mut self, size: usize, align: usize) -> (r: Result<MemoryChunk, AllocError>)
        ensures
            (size <= old(self).config.max_object_size && spec_power_of_two(align) && align
                <= DEFAULT_MAX_ALIGNMENT && spec_first_class(old(self).size_classes@, size)
                == old(self).size_classes@.len()) ==> (r matches Err(AllocError::SizeExceeded {
                size: s,
                max,
            }) && s == size && max == old(self).config.max_object_size),
            (size <= old(self).config.max_object_size && spec_power_of_two(align) && align
                <= DEFAULT_MAX_ALIGNMENT && spec_first_class(old(self).size_classes@, size)
                < old(self).size_classes@.len() && !old(self).can_allocate(size)) ==> r matches Err(
                AllocError::PoolExhausted,
            ),
    {
        if size > self.config.max_object_size {
            proof {
                lemma_first_class_ensures(self.size_classes@, size);
                if spec_first_class(self.size_classes@, size) < self.size_classes@.len() {
                    assert(self.size_classes@[spec_first_class(self.size_classes@, size)]
                        <= self.config.max_object_size);
                    assert(false);
                }
            }
            return self.allocate_object(size);
        }
        if !power_of_two(align) || align > DEFAULT_MAX_ALIGNMENT {
            return Err(
                AllocError::AlignmentNotSupported {
                    required: align,
                    supported: DEFAULT_MAX_ALIGNMENT,
                },
            );
        }
        proof {
            lemma_first_class_ensures(self.size_classes@, size);
        }
        let r = self.allocate_object(size);
        proof {
            let c = spec_first_class(old(self).size_classes@, size);
            if c < old(self).size_classes@.len() {
                assert(old(self).size_classes@[c] <= old(self).config.max_object_size);
            }
        }
        r
    }

    fn deallocate(&mut self, chunk: MemoryChunk, size: usize, align: usize) {
        match self.get_size_class_index(size) {
            Some(c) => {
                if chunk.data.len() == self.size_classes[c] && self.in_use[c] >= 1 {
                    self.deallocate_object(chunk, size);
                }
            },
            None => {},
        }
    }

    fn max_alignment(&self) -> (r: usize) {
        DEFAULT_MAX_ALIGNMENT
    }

    fn available_memory(&self) -> (r: usize) {
        let n = self.free_blocks.len();
        let mut acc: usize = 0;
        let mut c: usize = 0;
        while c < n
            invariant
                self.wf(),
                n == self.free_blocks@.len(),
                c <= n,
                acc == self.spec_free_bytes(c as int),
            decreases n - c,
        {
            let free_len = crate::chunk_queue::chunk_queue_len(&self.free_blocks[c]);
            let class_size = self.size_classes[c];
            acc = add_sat_usize(acc, mul_sat_usize(free_len, class_size));
            c = c + 1;
        }
        acc
    }

    fn total_memory(&self) -> (r: usize) {
        self.total_memory
    }
}

} // verus!
