//! The uniform allocator contract: the error taxonomy shared by every
//! backend, the alignment predicate, and the `MemoryAllocator` trait.

use vstd::prelude::*;
use crate::lock_free_pool::MemoryChunk;
use crate::stats::{clamped_sub_usize, max_usize, sat_add_usize};

verus! {

/// Errors surfaced by allocator operations.  Every backend reports failures
/// through this taxonomy; errors surface to the caller verbatim.
#[derive(Debug, Clone)]
pub enum AllocError {
    /// The operating system refused to provide memory.
    OutOfMemory,
    /// The request's preconditions were unmet; the reason describes which.
    InvalidLayout(String),
    /// The named NUMA node does not exist in this allocator's topology.
    NumaNodeUnavailable(usize),
    /// The request exceeds the backend's maximum unit.
    SizeExceeded { size: usize, max: usize },
    /// The backend's internal cap on chunks or objects has been reached.
    PoolExhausted,
    /// The requested alignment is above the backend's maximum, or is not a
    /// power of two.
    AlignmentNotSupported { required: usize, supported: usize },
    /// The process-wide memory system was initialized twice.
    AlreadyInitialized,
    /// The process-wide memory system was read before initialization.
    NotInitialized,
    /// The backend does not offer this operation; the reason describes why.
    UnsupportedOperation(String),
}

impl AllocError {
    /// A short human-readable description of the error.
    pub fn message(&self) -> String {
        match self {
            AllocError::OutOfMemory => "out of memory".to_string(),
            AllocError::InvalidLayout(reason) => reason.clone(),
            AllocError::NumaNodeUnavailable(_) => "NUMA node not available".to_string(),
            AllocError::SizeExceeded { .. } => "allocation size exceeds maximum".to_string(),
            AllocError::PoolExhausted => "memory pool exhausted".to_string(),
            AllocError::AlignmentNotSupported { .. } => {
                "alignment requirement not supported".to_string()
            },
            AllocError::AlreadyInitialized => "memory system already initialized".to_string(),
            AllocError::NotInitialized => "memory system not initialized".to_string(),
            AllocError::UnsupportedOperation(reason) => reason.clone(),
        }
    }
}

/// The default maximum alignment every backend honors: one cache line.
pub const DEFAULT_MAX_ALIGNMENT: usize = 64;

/// An alignment is acceptable when it is a nonzero power of two.
pub open spec fn spec_power_of_two(a: usize) -> bool {
    a != 0 && a & ((a - 1) as usize) == 0
}

/// Decides whether `a` is a power of two, by the usual bit trick.
pub fn power_of_two(a: usize) -> (r: bool)
    ensures
        r == spec_power_of_two(a),
{
    a != 0 && a & (a - 1) == 0
}

/// A run of `n` zero bytes.
pub open spec fn zero_seq(n: nat) -> Seq<u8> {
    Seq::new(n, |i: int| 0u8)
}

/// A freshly zero-initialized buffer of `size` bytes.
pub fn zero_vec(size: usize) -> (v: Vec<u8>)
    ensures
        v@ == zero_seq(size as nat),
{
    let mut v: Vec<u8> = Vec::with_capacity(size);
    let mut i: usize = 0;
    while i < size
        invariant
            i <= size,
            v@.len() == i,
            forall|k: int| 0 <= k < i ==> v@[k] == 0u8,
        decreases size - i,
    {
        v.push(0);
        i = i + 1;
    }
    proof {
        assert(v@ =~= zero_seq(size as nat));
    }
    v
}

/// The smaller of two sizes.
pub open spec fn min_usize(a: usize, b: usize) -> usize {
    if a < b { a } else { b }
}

/// The uniform contract every backend honors.  A backend hands out owned
/// regions of at least the requested size, keeps a live-bytes gauge with a
/// peak watermark, rejects requests beyond its maximum unit or alignment,
/// and says exactly when an allocation is owed success.
pub trait MemoryAllocator: Sized {
    /// The backend's structural invariant; every operation preserves it.
    spec fn inv(&self) -> bool;

    /// The largest request size the backend honors.
    spec fn max_size(&self) -> usize;

    /// The largest alignment the backend honors.
    spec fn max_align(&self) -> usize;

    /// The bytes charged against the gauge for a request of `size` bytes;
    /// at least `size` for every request the backend honors.
    spec fn charge(&self, size: usize) -> usize;

    /// The live-bytes gauge.
    spec fn live_bytes(&self) -> usize;

    /// The peak watermark of the live-bytes gauge.
    spec fn peak_bytes(&self) -> usize;

    /// Whether a well-formed request of `size` bytes is owed success.
    spec fn can_allocate(&self, size: usize) -> bool;

    /// Whether `chunk` is a region of this backend released against
    /// `size`; deallocation demands it.
    spec fn fits(&self, chunk: MemoryChunk, size: usize) -> bool;

    /// The backend's best-effort gauge of readily available bytes.
    spec fn available(&self) -> usize;

    /// The backend's total owned bytes.
    spec fn total(&self) -> usize;

    /// Whether a region fits a size depends only on the region's shape —
    /// its length and tags — never on the bytes it holds.
    proof fn lemma_fits_shape(&self, c1: MemoryChunk, c2: MemoryChunk, size: usize)
        requires
            self.fits(c1, size),
            c2.data@.len() == c1.data@.len(),
            c2.generation == c1.generation,
            c2.origin == c1.origin,
        ensures
            self.fits(c2, size),
    ;

    /// Requests `size` bytes at alignment `align`.  An oversized request
    /// fails with `SizeExceeded`; an unsupported alignment fails with
    /// `AlignmentNotSupported`; otherwise the request succeeds exactly
    /// when the backend has room.  Success charges the gauge and lifts the
    /// peak; failure leaves both untouched.
    fn allocate(&mut self, size: usize, align: usize) -> (r: Result<MemoryChunk, AllocError>)
        requires
            old(self).inv(),
        ensures
            final(self).inv(),
            final(self).max_size() == old(self).max_size(),
            final(self).max_align() == old(self).max_align(),
            forall|s: usize| #[trigger] final(self).charge(s) == old(self).charge(s),
            final(self).peak_bytes() >= old(self).peak_bytes(),
            r is Ok <==> (size <= old(self).max_size() && spec_power_of_two(align) && align
                <= old(self).max_align() && old(self).can_allocate(size)),
            size > old(self).max_size() ==> r == Err::<MemoryChunk, AllocError>(AllocError::SizeExceeded {
                size,
                max: old(self).max_size(),
            }),
            size <= old(self).max_size() && !(spec_power_of_two(align) && align <= old(self).max_align()) ==> r == Err::<MemoryChunk, AllocError>(AllocError::AlignmentNotSupported {
                required: align,
                supported: old(self).max_align(),
            }),
            r matches Ok(c) ==> {
                &&& c.data@.len() == old(self).charge(size)
                &&& c.data@.len() >= size
                &&& final(self).fits(c, size)
                &&& final(self).live_bytes() == sat_add_usize(
                    old(self).live_bytes(),
                    old(self).charge(size),
                )
                &&& final(self).peak_bytes() == max_usize(
                    old(self).peak_bytes(),
                    final(self).live_bytes(),
                )
            },
            r is Err ==> final(self).live_bytes() == old(self).live_bytes() && final(self).peak_bytes() == old(self).peak_bytes(),
    ;

    /// Returns a region to the backend.  Never fails; a region that did
    /// not come from this backend against the same size is the caller's
    /// error, and the backend leaves its accounts untouched in that case.
    fn deallocate(&mut self, chunk: MemoryChunk, size: usize, align: usize)
        requires
            old(self).inv(),
        ensures
            final(self).inv(),
            final(self).max_size() == old(self).max_size(),
            final(self).max_align() == old(self).max_align(),
            forall|s: usize| #[trigger] final(self).charge(s) == old(self).charge(s),
            final(self).peak_bytes() == old(self).peak_bytes(),
            old(self).fits(chunk, size) ==> final(self).live_bytes() == clamped_sub_usize(
                old(self).live_bytes(),
                old(self).charge(size),
            ),
            old(self).fits(chunk, size) ==> final(self).can_allocate(size),
            !old(self).fits(chunk, size) ==> final(self).live_bytes() == old(self).live_bytes(),
    ;

    /// As `allocate`, with the region's bytes observably zero.
    fn allocate_zeroed(&mut self, size: usize, align: usize) -> (r: Result<
        MemoryChunk,
        AllocError,
    >)
        requires
            old(self).inv(),
        ensures
            final(self).inv(),
            final(self).max_size() == old(self).max_size(),
            final(self).max_align() == old(self).max_align(),
            forall|s: usize| #[trigger] final(self).charge(s) == old(self).charge(s),
            final(self).peak_bytes() >= old(self).peak_bytes(),
            r is Ok <==> (size <= old(self).max_size() && spec_power_of_two(align) && align
                <= old(self).max_align() && old(self).can_allocate(size)),
            r matches Ok(c) ==> {
                &&& c.data@ == zero_seq(old(self).charge(size) as nat)
                &&& c.data@.len() >= size
                &&& final(self).fits(c, size)
                &&& final(self).live_bytes() == sat_add_usize(
                    old(self).live_bytes(),
                    old(self).charge(size),
                )
            },
            r is Err ==> final(self).live_bytes() == old(self).live_bytes(),
    {
        match self.allocate(size, align) {
            Ok(mut c) => {
                let ghost shaped = c;
                zero_fill(&mut c.data);
                proof {
                    self.lemma_fits_shape(shaped, c, size);
                }
                Ok(c)
            },
            Err(e) => Err(e),
        }
    }

    /// Moves the region behind `chunk` to a fresh region of `new_size`
    /// bytes, preserving the first `min(old_size, new_size)` bytes.  On
    /// failure the region is left exactly as it was.  A backend may refuse
    /// the operation as unsupported.
    fn reallocate(&mut self, chunk: &mut MemoryChunk, old_size: usize, new_size: usize, align:
        usize) -> (r: Result<(), AllocError>)
        requires
            old(self).inv(),
            old(self).fits(*old(chunk), old_size),
            old(chunk).data@.len() >= old_size,
        ensures
            final(self).inv(),
            final(self).max_size() == old(self).max_size(),
            final(self).max_align() == old(self).max_align(),
            forall|s: usize| #[trigger] final(self).charge(s) == old(self).charge(s),
            final(self).peak_bytes() >= old(self).peak_bytes(),
            r is Ok ==> {
                &&& final(chunk).data@.len() == final(self).charge(new_size)
                &&& final(chunk).data@.len() >= new_size
                &&& final(chunk).data@.subrange(
                    0,
                    min_usize(old_size, new_size) as int,
                ) == old(chunk).data@.subrange(0, min_usize(old_size, new_size) as int)
            },
            r is Err ==> *final(chunk) == *old(chunk),
        default_ensures
            r is Ok <==> (new_size <= old(self).max_size() && spec_power_of_two(align) && align
                <= old(self).max_align() && old(self).can_allocate(new_size)),
    {
        match self.allocate(new_size, align) {
            Ok(mut fresh) => {
                let ghost fresh0 = fresh;
                let n = if old_size < new_size {
                    old_size
                } else {
                    new_size
                };
                let mut i: usize = 0;
                while i < n
                    invariant
                        i <= n,
                        n <= chunk.data@.len(),
                        n <= fresh.data@.len(),
                        chunk.data@ == old(chunk).data@,
                        fresh.data@.len() == fresh0.data@.len(),
                        fresh.generation == fresh0.generation,
                        fresh.origin == fresh0.origin,
                        forall|k: int| 0 <= k < i ==> fresh.data@[k] == chunk.data@[k],
                    decreases n - i,
                {
                    let b = chunk.data[i];
                    fresh.data.set(i, b);
                    i = i + 1;
                }
                std::mem::swap(chunk, &mut fresh);
                self.deallocate(fresh, old_size, align);
                proof {
                    assert(chunk.data@.subrange(0, n as int) =~= old(chunk).data@.subrange(
                        0,
                        n as int,
                    ));
                }
                Ok(())
            },
            Err(e) => Err(e),
        }
    }

    /// Whether the backend honors alignment `a`: a power of two no larger
    /// than its maximum.
    fn supports_alignment(&self, align: usize) -> (r: bool)
        requires
            self.inv(),
        ensures
            r == (spec_power_of_two(align) && align <= self.max_align()),
    {
        power_of_two(align) && align <= self.max_alignment()
    }

    /// The backend's maximum supported alignment.
    fn max_alignment(&self) -> (r: usize)
        requires
            self.inv(),
        ensures
            r == self.max_align(),
    ;

    /// Best-effort gauge of readily available bytes.
    fn available_memory(&self) -> (r: usize)
        requires
            self.inv(),
        ensures
            r == self.available(),
    ;

    /// The backend's total owned bytes.
    fn total_memory(&self) -> (r: usize)
        requires
            self.inv(),
        ensures
            r == self.total(),
    ;
}

/// Overwrites a buffer with zeros, keeping its length.
pub fn zero_fill(v: &mut Vec<u8>)
    ensures
        final(v)@ == zero_seq(old(v)@.len()),
{
    let n = v.len();
    let mut i: usize = 0;
    while i < n
        invariant
            i <= n,
            v@.len() == n,
            forall|k: int| 0 <= k < i ==> v@[k] == 0u8,
        decreases n - i,
    {
        v.set(i, 0);
        i = i + 1;
    }
    proof {
        assert(v@ =~= zero_seq(old(v)@.len()));
    }
}

} // verus!
