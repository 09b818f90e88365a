//! Allocation telemetry: monotonic counters, a live-bytes gauge with a peak
//! watermark, a bounded ring of recent allocation latencies with percentile
//! queries, and a power-of-four histogram of allocation sizes.

use vstd::prelude::*;
use std::collections::VecDeque;
use crate::time::{elapsed_ns_since, instant_now};

verus! {

/// Number of latency samples retained by the ring.
pub const HISTORY_SIZE: usize = 1000;

// ---------------------------------------------------------------------------
// Saturating arithmetic helpers: telemetry counters clamp instead of wrapping.
// ---------------------------------------------------------------------------

/// Saturating addition on `u64`, as a spec-level function.
pub open spec fn sat_add_u64(a: u64, b: u64) -> u64 {
    if a + b > u64::MAX {
        u64::MAX
    } else {
        (a + b) as u64
    }
}

/// Saturating addition on `usize`, as a spec-level function.
pub open spec fn sat_add_usize(a: usize, b: usize) -> usize {
    if a + b > usize::MAX {
        usize::MAX
    } else {
        (a + b) as usize
    }
}

/// Subtraction on `usize` clamped at zero, as a spec-level function.
pub open spec fn clamped_sub_usize(a: usize, b: usize) -> usize {
    if a >= b {
        (a - b) as usize
    } else {
        0
    }
}

/// Saturating addition on `u64`.
pub fn add_sat_u64(a: u64, b: u64) -> (r: u64)
    ensures
        r == sat_add_u64(a, b),
{
    if a > u64::MAX - b {
        u64::MAX
    } else {
        a + b
    }
}

/// Saturating addition on `usize`.
pub fn add_sat_usize(a: usize, b: usize) -> (r: usize)
    ensures
        r == sat_add_usize(a, b),
{
    if a > usize::MAX - b {
        usize::MAX
    } else {
        a + b
    }
}

/// Saturating multiplication on `usize`, as a spec-level function.
pub open spec fn sat_mul_usize(a: usize, b: usize) -> usize {
    if a * b > usize::MAX {
        usize::MAX
    } else {
        (a * b) as usize
    }
}

/// Saturating multiplication on `usize`.
pub fn mul_sat_usize(a: usize, b: usize) -> (r: usize)
    ensures
        r == sat_mul_usize(a, b),
{
    proof {
        assert((a as int) * (b as int) <= (u64::MAX as int) * (u64::MAX as int))
            by (nonlinear_arith)
            requires a as int <= u64::MAX as int, b as int <= u64::MAX as int,
        ;
    }
    let wide: u128 = (a as u128) * (b as u128);
    if wide > (usize::MAX as u128) {
        usize::MAX
    } else {
        wide as usize
    }
}

/// Accumulating one more addend of `c` into a saturating sum of `k`
/// copies of `c` yields the saturating sum of `k + 1` copies.
pub proof fn lemma_sat_mul_step(k: usize, c: usize)
    requires
        k < usize::MAX,
    ensures
        sat_add_usize(sat_mul_usize(k, c), c) == sat_mul_usize((k + 1) as usize, c),
{
    assert((k + 1) * c == k * c + c) by (nonlinear_arith);
    if k * c > usize::MAX {
        assert((k + 1) * c > usize::MAX);
    }
}

/// Subtraction on `usize` clamped at zero.
pub fn sub_clamped_usize(a: usize, b: usize) -> (r: usize)
    ensures
        r == clamped_sub_usize(a, b),
{
    if a >= b {
        a - b
    } else {
        0
    }
}

// ---------------------------------------------------------------------------
// Latency ring with a lazily sorted shadow and percentile queries.
// ---------------------------------------------------------------------------

/// A sequence is sorted in non-decreasing order.
pub open spec fn sorted_ascending(s: Seq<u64>) -> bool {
    forall|i: int, j: int| 0 <= i <= j < s.len() ==> s[i] <= s[j]
}

/// The index read for percentile `p_milli` (in thousandths) from a sorted
/// sequence of `n` samples: `(n - 1) * p / 1000`, rounded down.
pub open spec fn percentile_index(n: nat, p_milli: nat) -> nat {
    (((n - 1) * p_milli) / 1000) as nat
}

/// The percentile value read from an already sorted sequence; an empty
/// sequence reads zero.
pub open spec fn spec_percentile(sorted_samples: Seq<u64>, p_milli: nat) -> u64 {
    if sorted_samples.len() == 0 {
        0u64
    } else {
        sorted_samples[percentile_index(sorted_samples.len(), p_milli) as int]
    }
}

/// Sum of a sequence of latencies, peeled from the back.
pub open spec fn sum_ns(s: Seq<u64>) -> int
    decreases s.len(),
{
    if s.len() == 0 {
        0
    } else {
        sum_ns(s.drop_last()) + s.last()
    }
}

/// Minimum of a sequence of latencies; zero when empty.
pub open spec fn min_ns(s: Seq<u64>) -> u64
    decreases s.len(),
{
    if s.len() == 0 {
        0u64
    } else if s.len() == 1 {
        s.last()
    } else if s.last() < min_ns(s.drop_last()) {
        s.last()
    } else {
        min_ns(s.drop_last())
    }
}

/// Maximum of a sequence of latencies; zero when empty.
pub open spec fn max_ns(s: Seq<u64>) -> u64
    decreases s.len(),
{
    if s.len() == 0 {
        0u64
    } else if s.len() == 1 {
        s.last()
    } else if s.last() > max_ns(s.drop_last()) {
        s.last()
    } else {
        max_ns(s.drop_last())
    }
}

/// Latency summary reported by a telemetry snapshot.  All values are in
/// nanoseconds; the mean is reported in thousandths of a nanosecond so that
/// no precision is lost on small sample sets.
#[derive(Debug, Clone, Copy, PartialEq, Eq, Structural)]
pub struct LatencyStats {
    /// Mean latency, in thousandths of a nanosecond.
    pub mean_milli_ns: u64,
    /// 50th percentile.
    pub median_ns: u64,
    /// 90th percentile.
    pub p90_ns: u64,
    /// 95th percentile.
    pub p95_ns: u64,
    /// 99th percentile.
    pub p99_ns: u64,
    /// 99.9th percentile.
    pub p999_ns: u64,
    /// Smallest retained sample.
    pub min_ns: u64,
    /// Largest retained sample.
    pub max_ns: u64,
}

/// The all-zero latency summary, reported while no samples are retained.
pub open spec fn zero_latency_stats() -> LatencyStats {
    LatencyStats {
        mean_milli_ns: 0,
        median_ns: 0,
        p90_ns: 0,
        p95_ns: 0,
        p99_ns: 0,
        p999_ns: 0,
        min_ns: 0,
        max_ns: 0,
    }
}

/// Bounded ring of the most recent allocation latencies.  A sorted shadow of
/// the ring is maintained lazily: it is invalidated on insertion and rebuilt
/// on the next percentile read.
#[derive(Debug)]
pub struct LatencyTracker {
    /// The retained samples, oldest first, at most `HISTORY_SIZE` of them.
    pub samples: VecDeque<u64>,
    /// The lazily maintained sorted shadow of `samples`.
    pub sorted_cache: Vec<u64>,
    /// Whether `sorted_cache` currently mirrors `samples`.
    pub cache_valid: bool,
}

impl LatencyTracker {
    /// The ring is bounded and a valid cache is a sorted permutation of it.
    pub open spec fn wf(&self) -> bool {
        &&& self.samples@.len() <= HISTORY_SIZE
        &&& self.cache_valid ==> {
            &&& sorted_ascending(self.sorted_cache@)
            &&& self.sorted_cache@.to_multiset() == self.samples@.to_multiset()
        }
    }

    /// An empty tracker.
    pub fn new() -> (r: Self)
        ensures
            r.wf(),
            r.samples@ == Seq::<u64>::empty(),
            !r.cache_valid,
    {
        LatencyTracker {
            samples: VecDeque::with_capacity(HISTORY_SIZE),
            sorted_cache: Vec::with_capacity(HISTORY_SIZE),
            cache_valid: false,
        }
    }

    /// Appends a sample, evicting the oldest one once the ring is full, and
    /// invalidates the sorted shadow.
    pub fn record(&mut self, latency_ns: u64)
        requires
            old(self).wf(),
        ensures
            final(self).wf(),
            final(self).samples@ == (if old(self).samples@.len() >= HISTORY_SIZE {
                old(self).samples@.drop_first().push(latency_ns)
            } else {
                old(self).samples@.push(latency_ns)
            }),
            !final(self).cache_valid,
    {
        if self.samples.len() >= HISTORY_SIZE {
            let _evicted = self.samples.pop_front();
        }
        self.samples.push_back(latency_ns);
        self.cache_valid = false;
    }

    /// Rebuilds the sorted shadow from the current samples.
    fn rebuild_cache(&mut self)
        requires
            old(self).wf(),
        ensures
            final(self).wf(),
            final(self).samples@ == old(self).samples@,
            final(self).cache_valid,
            final(self).sorted_cache@.len() == old(self).samples@.len(),
    {
        self.sorted_cache.clear();
        proof {
            assert(self.sorted_cache@ =~= self.samples@.subrange(0, 0));
        }
        let n = self.samples.len();
        let mut i: usize = 0;
        while i < n
            invariant
                self.samples@ == old(self).samples@,
                n == self.samples@.len(),
                i <= n,
                self.sorted_cache@.len() == i,
                sorted_ascending(self.sorted_cache@),
                self.sorted_cache@.to_multiset() == self.samples@.subrange(0, i as int).to_multiset(),
            decreases n - i,
        {
            let x = self.samples[i];
            insert_sorted(&mut self.sorted_cache, x);
            proof {
                assert(self.samples@.subrange(0, i + 1 as int).drop_last() =~= self.samples@.subrange(
                    0,
                    i as int,
                ));
                assert(self.samples@.subrange(0, i + 1 as int).last() == self.samples@[i as int]);
                lemma_to_multiset_push(self.samples@.subrange(0, i as int), self.samples@[i as int]);
                assert(self.samples@.subrange(0, i as int).push(self.samples@[i as int]) =~= self.samples@.subrange(
                    0,
                    i + 1 as int,
                ));
            }
            i = i + 1;
        }
        proof {
            assert(self.samples@.subrange(0, self.samples@.len() as int) =~= self.samples@);
        }
        self.cache_valid = true;
        proof {
            self.sorted_cache@.to_multiset_ensures();
            self.samples@.to_multiset_ensures();
        }
    }

    /// Reads the percentile at `p_milli` thousandths from the sorted shadow,
    /// rebuilding the shadow first if it is stale.  An empty ring reads zero.
    pub fn get_percentile(&mut self, p_milli: u64) -> (r: u64)
        requires
            old(self).wf(),
            p_milli <= 1000,
        ensures
            final(self).wf(),
            final(self).samples@ == old(self).samples@,
            old(self).samples@.len() == 0 ==> r == 0 && *final(self) == *old(self),
            old(self).cache_valid ==> *final(self) == *old(self),
            old(self).samples@.len() > 0 ==> {
                &&& final(self).cache_valid
                &&& sorted_ascending(final(self).sorted_cache@)
                &&& final(self).sorted_cache@.to_multiset() == final(self).samples@.to_multiset()
                &&& r == spec_percentile(final(self).sorted_cache@, p_milli as nat)
            },
    {
        if self.samples.len() == 0 {
            return 0;
        }
        if !self.cache_valid {
            self.rebuild_cache();
        }
        proof {
            self.sorted_cache@.to_multiset_ensures();
            self.samples@.to_multiset_ensures();
            assert(self.sorted_cache@.len() == self.samples@.len());
        }
        let n = self.sorted_cache.len();
        let index = percentile_slot(n, p_milli);
        self.sorted_cache[index]
    }
}

/// The index `(n - 1) * p / 1000` used for a percentile read.
fn percentile_slot(n: usize, p_milli: u64) -> (r: usize)
    requires
        n >= 1,
        p_milli <= 1000,
    ensures
        r == percentile_index(n as nat, p_milli as nat),
        r < n,
{
    let wide: u128 = (n - 1) as u128;
    proof {
        let w = (n - 1) as int;
        vstd::arithmetic::mul::lemma_mul_inequality(p_milli as int, 1000, w);
        vstd::arithmetic::mul::lemma_mul_inequality(w, usize::MAX as int, 1000);
        vstd::arithmetic::div_mod::lemma_div_is_ordered(w * p_milli, w * 1000, 1000);
        vstd::arithmetic::div_mod::lemma_div_by_multiple(w, 1000);
    }
    let idx: u128 = wide * (p_milli as u128) / 1000;
    idx as usize
}

/// Appending an element appends to the multiset of the sequence.
proof fn lemma_to_multiset_push(s: Seq<u64>, x: u64)
    ensures
        s.push(x).to_multiset() == s.to_multiset().insert(x),
{
    s.to_multiset_ensures();
    assert(s.push(x).to_multiset() =~= s.to_multiset().insert(x));
}

/// Inserting an element anywhere inserts it into the multiset.
proof fn lemma_to_multiset_insert(s: Seq<u64>, i: int, x: u64)
    requires
        0 <= i <= s.len(),
    ensures
        s.insert(i, x).to_multiset() == s.to_multiset().insert(x),
{
    let t = s.insert(i, x);
    assert(t.remove(i) =~= s);
    t.to_multiset_ensures();
    assert(t[i] == x);
    assert(t.remove(i).to_multiset() == t.to_multiset().remove(x));
    assert(t.to_multiset().contains(x)) by {
        assert(t.contains(x));
    }
    assert(t.to_multiset().remove(x).insert(x) =~= t.to_multiset());
    assert(s.to_multiset().insert(x) == t.to_multiset().remove(x).insert(x));
}

/// Inserts `x` into a sorted vector, keeping it sorted.
fn insert_sorted(v: &mut Vec<u64>, x: u64)
    requires
        sorted_ascending(old(v)@),
        old(v)@.len() < usize::MAX,
    ensures
        sorted_ascending(final(v)@),
        final(v)@.to_multiset() == old(v)@.to_multiset().insert(x),
        final(v)@.len() == old(v)@.len() + 1,
{
    let mut pos: usize = 0;
    while pos < v.len() && v[pos] <= x
        invariant
            pos <= v@.len(),
            forall|k: int| 0 <= k < pos ==> v@[k] <= x,
            sorted_ascending(v@),
        decreases v@.len() - pos,
    {
        pos = pos + 1;
    }
    proof {
        lemma_to_multiset_insert(v@, pos as int, x);
    }
    let ghost before = v@;
    v.insert(pos, x);
    proof {
        let s = before.insert(pos as int, x);
        assert forall|i: int, j: int| 0 <= i <= j < s.len() implies s[i] <= s[j] by {
            if j < pos {
                assert(s[i] == before[i] && s[j] == before[j]);
            } else if i > pos {
                assert(s[i] == before[i - 1] && s[j] == before[j - 1]);
            } else if i == pos && j == pos {
            } else if i < pos && j == pos {
                assert(s[i] == before[i] && s[j] == x);
            } else if i == pos && j > pos {
                assert(s[i] == x && s[j] == before[j - 1]);
                assert(pos < before.len() ==> before[pos as int] > x);
                assert(before[j - 1] >= before[pos as int]);
            } else {
                assert(i < pos && j > pos);
                assert(s[i] == before[i] && s[j] == before[j - 1]);
                assert(before[j - 1] >= before[pos as int]);
            }
        }
    }
}

/// At matching sample counts, a lower percentile target never reads a larger
/// value than a higher one: the read index is monotone in the target and the
/// sequence is sorted.
pub proof fn lemma_percentile_monotone(sorted_samples: Seq<u64>, p1_milli: nat, p2_milli: nat)
    requires
        sorted_ascending(sorted_samples),
        p1_milli <= p2_milli,
        p2_milli <= 1000,
    ensures
        spec_percentile(sorted_samples, p1_milli) <= spec_percentile(sorted_samples, p2_milli),
{
    if sorted_samples.len() == 0 {
    } else {
        let n = sorted_samples.len();
        let w = n - 1;
        let i1 = percentile_index(n, p1_milli);
        let i2 = percentile_index(n, p2_milli);
        vstd::arithmetic::mul::lemma_mul_inequality(p1_milli as int, p2_milli as int, w);
        vstd::arithmetic::div_mod::lemma_div_is_ordered(w * p1_milli, w * p2_milli, 1000);
        vstd::arithmetic::mul::lemma_mul_inequality(p2_milli as int, 1000, w);
        vstd::arithmetic::div_mod::lemma_div_is_ordered(w * p2_milli, w * 1000, 1000);
        vstd::arithmetic::div_mod::lemma_div_by_multiple(w, 1000);
        assert(i1 <= i2 < n);
    }
}

// ---------------------------------------------------------------------------
// Size histogram: eight buckets spanning powers of four.
// ---------------------------------------------------------------------------

/// Lower bound (inclusive) of histogram bucket `i`.
pub open spec fn bucket_lo(i: int) -> usize {
    if i == 0 { 0 }
    else if i == 1 { 65 }
    else if i == 2 { 257 }
    else if i == 3 { 1025 }
    else if i == 4 { 4097 }
    else if i == 5 { 16385 }
    else if i == 6 { 65537 }
    else { 262145 }
}

/// Upper bound (inclusive) of histogram bucket `i`.
pub open spec fn bucket_hi(i: int) -> usize {
    if i == 0 { 64 }
    else if i == 1 { 256 }
    else if i == 2 { 1024 }
    else if i == 3 { 4096 }
    else if i == 4 { 16384 }
    else if i == 5 { 65536 }
    else if i == 6 { 262144 }
    else { usize::MAX }
}

/// The bucket an allocation of `size` bytes falls into.
pub open spec fn spec_bucket_index(size: usize) -> int {
    if size <= 64 { 0 }
    else if size <= 256 { 1 }
    else if size <= 1024 { 2 }
    else if size <= 4096 { 3 }
    else if size <= 16384 { 4 }
    else if size <= 65536 { 5 }
    else if size <= 262144 { 6 }
    else { 7 }
}

/// One histogram bucket: an inclusive size range with a hit count and the
/// total bytes recorded into it.
#[derive(Debug, Clone, Copy)]
pub struct SizeBucket {
    /// Smallest size counted by this bucket.
    pub min_size: usize,
    /// Largest size counted by this bucket.
    pub max_size: usize,
    /// Number of allocations recorded.
    pub count: u64,
    /// Total bytes recorded.
    pub total_bytes: u64,
}

impl SizeBucket {
    /// An empty bucket spanning `[min, max]`.
    pub fn new(min: usize, max: usize) -> (r: Self)
        ensures
            r.min_size == min,
            r.max_size == max,
            r.count == 0,
            r.total_bytes == 0,
    {
        SizeBucket { min_size: min, max_size: max, count: 0, total_bytes: 0 }
    }
}

/// Histogram of allocation sizes over eight power-of-four buckets.
#[derive(Debug)]
pub struct SizeDistribution {
    /// The eight buckets, in increasing size order.
    pub buckets: Vec<SizeBucket>,
    /// Total number of recorded allocations.
    pub total_count: u64,
}

impl SizeDistribution {
    /// The buckets always hold the eight fixed ranges.
    pub open spec fn wf(&self) -> bool {
        &&& self.buckets@.len() == 8
        &&& forall|i: int|
            0 <= i < 8 ==> (#[trigger] self.buckets@[i]).min_size == bucket_lo(i)
                && self.buckets@[i].max_size == bucket_hi(i)
    }

    /// All bucket counts are zero.
    pub open spec fn is_zeroed(&self) -> bool {
        &&& self.total_count == 0
        &&& forall|i: int|
            0 <= i < self.buckets@.len() ==> (#[trigger] self.buckets@[i]).count == 0
                && self.buckets@[i].total_bytes == 0
    }

    /// A fresh histogram with all counts zero.
    pub fn new() -> (r: Self)
        ensures
            r.wf(),
            r.is_zeroed(),
    {
        let mut buckets: Vec<SizeBucket> = Vec::with_capacity(8);
        buckets.push(SizeBucket::new(0, 64));
        buckets.push(SizeBucket::new(65, 256));
        buckets.push(SizeBucket::new(257, 1024));
        buckets.push(SizeBucket::new(1025, 4096));
        buckets.push(SizeBucket::new(4097, 16384));
        buckets.push(SizeBucket::new(16385, 65536));
        buckets.push(SizeBucket::new(65537, 262144));
        buckets.push(SizeBucket::new(262145, usize::MAX));
        SizeDistribution { buckets, total_count: 0 }
    }

    /// Records one allocation of `size` bytes into the bucket that spans it.
    pub fn record(&mut self, size: usize)
        requires
            old(self).wf(),
        ensures
            final(self).wf(),
            final(self).total_count == sat_add_u64(old(self).total_count, 1),
            final(self).buckets@.len() == 8,
            ({
                let k = spec_bucket_index(size);
                &&& final(self).buckets@[k].count == sat_add_u64(old(self).buckets@[k].count, 1)
                &&& final(self).buckets@[k].total_bytes == sat_add_u64(
                    old(self).buckets@[k].total_bytes,
                    size as u64,
                )
                &&& forall|i: int|
                    0 <= i < 8 && i != k ==> final(self).buckets@[i] == old(self).buckets@[i]
            }),
    {
        let k = bucket_index(size);
        let b = self.buckets[k];
        let updated = SizeBucket {
            min_size: b.min_size,
            max_size: b.max_size,
            count: add_sat_u64(b.count, 1),
            total_bytes: add_sat_u64(b.total_bytes, size as u64),
        };
        self.buckets.set(k, updated);
        self.total_count = add_sat_u64(self.total_count, 1);
    }
}

/// Picks the histogram bucket for `size`.
fn bucket_index(size: usize) -> (r: usize)
    ensures
        r == spec_bucket_index(size),
        r < 8,
{
    if size <= 64 { 0 }
    else if size <= 256 { 1 }
    else if size <= 1024 { 2 }
    else if size <= 4096 { 3 }
    else if size <= 16384 { 4 }
    else if size <= 65536 { 5 }
    else if size <= 262144 { 6 }
    else { 7 }
}

// ---------------------------------------------------------------------------
// Human-readable size labels, rendered with integer arithmetic.
// ---------------------------------------------------------------------------

/// The character for a single decimal digit.
pub open spec fn digit_char(d: nat) -> char {
    if d == 0 { '0' }
    else if d == 1 { '1' }
    else if d == 2 { '2' }
    else if d == 3 { '3' }
    else if d == 4 { '4' }
    else if d == 5 { '5' }
    else if d == 6 { '6' }
    else if d == 7 { '7' }
    else if d == 8 { '8' }
    else { '9' }
}

/// Decimal rendering of a natural number, most significant digit first.
pub open spec fn dec_chars(n: nat) -> Seq<char>
    decreases n,
{
    if n < 10 {
        seq![digit_char(n)]
    } else {
        dec_chars(n / 10).push(digit_char(n % 10))
    }
}

/// The unit picked for a size label: bytes below 1 KiB, then KiB, MiB, GiB.
pub open spec fn spec_unit_index(size: nat) -> int {
    if size < 1024 { 0 }
    else if size < 1048576 { 1 }
    else if size < 1073741824 { 2 }
    else { 3 }
}

/// The divisor that converts bytes into the unit at `u`.
pub open spec fn unit_divisor(u: int) -> nat {
    if u == 0 { 1 }
    else if u == 1 { 1024 }
    else if u == 2 { 1048576 }
    else { 1073741824 }
}

/// The suffix of the unit at `u`.
pub open spec fn unit_chars(u: int) -> Seq<char> {
    if u == 0 { seq!['B'] }
    else if u == 1 { seq!['K', 'B'] }
    else if u == 2 { seq!['M', 'B'] }
    else { seq!['G', 'B'] }
}

/// A size rendered in its largest unit: the whole part, one truncated
/// decimal when the size does not divide the unit evenly, and the suffix.
pub open spec fn spec_format_size(size: nat) -> Seq<char> {
    let u = spec_unit_index(size);
    let d = unit_divisor(u);
    let whole = size / d;
    let tenths = (size * 10 / d) % 10;
    if size % d == 0 {
        dec_chars(whole) + unit_chars(u)
    } else {
        dec_chars(whole) + seq!['.', digit_char(tenths)] + unit_chars(u)
    }
}

/// A single decimal digit as a string slice.
fn digit_str(d: u64) -> (r: &'static str)
    requires
        d < 10,
    ensures
        r@ == seq![digit_char(d as nat)],
{
    proof {
        reveal_strlit("0");
        reveal_strlit("1");
        reveal_strlit("2");
        reveal_strlit("3");
        reveal_strlit("4");
        reveal_strlit("5");
        reveal_strlit("6");
        reveal_strlit("7");
        reveal_strlit("8");
        reveal_strlit("9");
    }
    let r = if d == 0 { "0" }
    else if d == 1 { "1" }
    else if d == 2 { "2" }
    else if d == 3 { "3" }
    else if d == 4 { "4" }
    else if d == 5 { "5" }
    else if d == 6 { "6" }
    else if d == 7 { "7" }
    else if d == 8 { "8" }
    else { "9" };
    proof {
        assert(r@ =~= seq![digit_char(d as nat)]);
    }
    r
}

/// Appends the decimal rendering of `n` to `out`.
fn append_decimal(n: u64, out: &mut String)
    ensures
        final(out)@ == old(out)@ + dec_chars(n as nat),
    decreases n,
{
    if n < 10 {
        out.append(digit_str(n));
    } else {
        append_decimal(n / 10, out);
        out.append(digit_str(n % 10));
        proof {
            assert(old(out)@ + dec_chars((n / 10) as nat) + seq![digit_char((n % 10) as nat)]
                =~= old(out)@ + dec_chars(n as nat));
        }
    }
}

impl SizeDistribution {
    /// Renders a byte size in its largest unit, e.g. 64 bytes as a plain
    /// byte count and 4096 bytes in KiB.  The decimal, when the size does
    /// not divide the unit evenly, is truncated, not rounded.
    pub fn format_size(size: usize) -> (r: String)
        ensures
            r@ == spec_format_size(size as nat),
    {
        let s: u64 = size as u64;
        let (u, d): (usize, u64) = if s < 1024 {
            (0, 1)
        } else if s < 1048576 {
            (1, 1024)
        } else if s < 1073741824 {
            (2, 1048576)
        } else {
            (3, 1073741824)
        };
        let whole: u64 = s / d;
        let tenths: u64 = (((s as u128) * 10) / (d as u128) % 10) as u64;
        proof {
            assert((s as u128) * 10 == (s as int) * 10) by (nonlinear_arith);
            assert((s as int) * 10 / (d as int) % 10 < 10) by {
                vstd::arithmetic::div_mod::lemma_mod_bound((s as int) * 10 / (d as int), 10);
            }
        }
        let mut label = String::new();
        append_decimal(whole, &mut label);
        if s % d != 0 {
            proof {
                reveal_strlit(".");
            }
            label.append(".");
            label.append(digit_str(tenths));
        }
        proof {
            reveal_strlit("B");
            reveal_strlit("KB");
            reveal_strlit("MB");
            reveal_strlit("GB");
        }
        if u == 0 {
            label.append("B");
        } else if u == 1 {
            label.append("KB");
        } else if u == 2 {
            label.append("MB");
        } else {
            label.append("GB");
        }
        proof {
            assert(label@ =~= spec_format_size(size as nat));
        }
        label
    }
}

// ---------------------------------------------------------------------------
// Latency summary over the ring.
// ---------------------------------------------------------------------------

/// The mean of a non-empty sample sequence, in thousandths of a nanosecond,
/// clamped at `u64::MAX`.
pub open spec fn spec_mean_milli(s: Seq<u64>) -> u64 {
    let m = sum_ns(s) * 1000 / s.len() as int;
    if m > u64::MAX { u64::MAX } else { m as u64 }
}

/// The sum of a latency sequence is bounded by its length times the largest
/// representable sample.
proof fn lemma_sum_bounds(s: Seq<u64>)
    ensures
        0 <= sum_ns(s) <= s.len() * (u64::MAX as int),
    decreases s.len(),
{
    if s.len() == 0 {
    } else {
        lemma_sum_bounds(s.drop_last());
        assert((s.len() - 1) * (u64::MAX as int) + (u64::MAX as int) == s.len() * (
        u64::MAX as int)) by (nonlinear_arith);
    }
}

impl LatencyTracker {
    /// Summarizes the retained samples: mean, the five percentile targets,
    /// minimum and maximum.  An empty ring summarizes to all zeros.
    pub fn get_stats(&mut self) -> (r: LatencyStats)
        requires
            old(self).wf(),
        ensures
            final(self).wf(),
            final(self).samples@ == old(self).samples@,
            old(self).samples@.len() == 0 ==> r == zero_latency_stats() && *final(self) == *old(self),
            old(self).samples@.len() > 0 ==> {
                &&& final(self).cache_valid
                &&& sorted_ascending(final(self).sorted_cache@)
                &&& final(self).sorted_cache@.to_multiset() == final(self).samples@.to_multiset()
                &&& r.mean_milli_ns == spec_mean_milli(final(self).samples@)
                &&& r.median_ns == spec_percentile(final(self).sorted_cache@, 500)
                &&& r.p90_ns == spec_percentile(final(self).sorted_cache@, 900)
                &&& r.p95_ns == spec_percentile(final(self).sorted_cache@, 950)
                &&& r.p99_ns == spec_percentile(final(self).sorted_cache@, 990)
                &&& r.p999_ns == spec_percentile(final(self).sorted_cache@, 999)
                &&& r.min_ns == min_ns(final(self).samples@)
                &&& r.max_ns == max_ns(final(self).samples@)
            },
    {
        let n = self.samples.len();
        if n == 0 {
            return LatencyStats {
                mean_milli_ns: 0,
                median_ns: 0,
                p90_ns: 0,
                p95_ns: 0,
                p99_ns: 0,
                p999_ns: 0,
                min_ns: 0,
                max_ns: 0,
            };
        }

        let mut sum: u128 = 0;
        let mut low: u64 = self.samples[0];
        let mut high: u64 = self.samples[0];
        let mut i: usize = 0;
        proof {
            assert(self.samples@.subrange(0, 0) =~= Seq::<u64>::empty());
        }
        while i < n
            invariant
                n == self.samples@.len(),
                n >= 1,
                i <= n,
                sum == sum_ns(self.samples@.subrange(0, i as int)),
                i > 0 ==> low == min_ns(self.samples@.subrange(0, i as int)),
                i > 0 ==> high == max_ns(self.samples@.subrange(0, i as int)),
                i == 0 ==> low == self.samples@[0] && high == self.samples@[0],
            decreases n - i,
        {
            let x = self.samples[i];
            proof {
                let pre = self.samples@.subrange(0, i as int);
                let post = self.samples@.subrange(0, i + 1 as int);
                assert(post.drop_last() =~= pre);
                assert(post.last() == self.samples@[i as int]);
                lemma_sum_bounds(pre);
            }
            sum = sum + (x as u128);
            if i == 0 {
                low = x;
                high = x;
            } else {
                if x < low {
                    low = x;
                }
                if x > high {
                    high = x;
                }
            }
            i = i + 1;
        }
        proof {
            assert(self.samples@.subrange(0, n as int) =~= self.samples@);
            lemma_sum_bounds(self.samples@);
        }
        let wide_mean: u128 = sum * 1000 / (n as u128);
        let mean_milli: u64 = if wide_mean > (u64::MAX as u128) {
            u64::MAX
        } else {
            wide_mean as u64
        };

        let median = self.get_percentile(500);
        let p90 = self.get_percentile(900);
        let p95 = self.get_percentile(950);
        let p99 = self.get_percentile(990);
        let p999 = self.get_percentile(999);

        LatencyStats {
            mean_milli_ns: mean_milli,
            median_ns: median,
            p90_ns: p90,
            p95_ns: p95,
            p99_ns: p99,
            p999_ns: p999,
            min_ns: low,
            max_ns: high,
        }
    }
}

// ---------------------------------------------------------------------------
// Histogram report.
// ---------------------------------------------------------------------------

/// The label of a histogram bucket: its bounds in their largest units, or
/// an open-ended range for the last bucket.
pub open spec fn spec_range_label(b: SizeBucket) -> Seq<char> {
    if b.max_size == usize::MAX {
        spec_format_size(b.min_size as nat) + seq!['+']
    } else {
        spec_format_size(b.min_size as nat) + seq!['-'] + spec_format_size(b.max_size as nat)
    }
}

/// The report rows for the buckets of `bs` that saw at least one
/// allocation: the bucket's label, its share of `total` in thousandths, and
/// its total bytes.
pub open spec fn spec_distribution(bs: Seq<SizeBucket>, total: u64) -> Seq<(Seq<char>, u64, u64)>
    decreases bs.len(),
{
    if bs.len() == 0 {
        Seq::empty()
    } else if bs.last().count > 0 {
        spec_distribution(bs.drop_last(), total).push(
            (
                spec_range_label(bs.last()),
                (bs.last().count as int * 1000 / total as int) as u64,
                bs.last().total_bytes,
            ),
        )
    } else {
        spec_distribution(bs.drop_last(), total)
    }
}

impl SizeDistribution {
    /// Reports, for every bucket that saw an allocation, its range label,
    /// its share of all recorded allocations in thousandths, and its total
    /// bytes.  With nothing recorded the report is empty.
    pub fn get_distribution(&self) -> (r: Vec<(String, u64, u64)>)
        requires
            self.wf(),
            forall|i: int|
                0 <= i < self.buckets@.len() ==> (#[trigger] self.buckets@[i]).count
                    <= self.total_count,
        ensures
            self.total_count == 0 ==> r@.len() == 0,
            self.total_count > 0 ==> r@.map_values(|t: (String, u64, u64)| (t.0@, t.1, t.2))
                == spec_distribution(self.buckets@, self.total_count),
    {
        let mut rows: Vec<(String, u64, u64)> = Vec::new();
        if self.total_count == 0 {
            return rows;
        }
        let total = self.total_count;
        let mut i: usize = 0;
        proof {
            assert(self.buckets@.subrange(0, 0) =~= Seq::<SizeBucket>::empty());
            assert(rows@.map_values(|t: (String, u64, u64)| (t.0@, t.1, t.2)) =~= spec_distribution(
                self.buckets@.subrange(0, 0),
                total,
            ));
        }
        while i < 8
            invariant
                self.wf(),
                total == self.total_count,
                total > 0,
                forall|k: int|
                    0 <= k < self.buckets@.len() ==> (#[trigger] self.buckets@[k]).count <= total,
                i <= 8,
                rows@.map_values(|t: (String, u64, u64)| (t.0@, t.1, t.2)) == spec_distribution(
                    self.buckets@.subrange(0, i as int),
                    total,
                ),
            decreases 8 - i,
        {
            let b = self.buckets[i];
            let ghost pre = self.buckets@.subrange(0, i as int);
            let ghost post = self.buckets@.subrange(0, i + 1 as int);
            proof {
                assert(post.drop_last() =~= pre);
                assert(post.last() == self.buckets@[i as int]);
            }
            if b.count > 0 {
                let label = Self::range_label(&b);
                let share: u64 = ((b.count as u128) * 1000 / (total as u128)) as u64;
                proof {
                    vstd::arithmetic::mul::lemma_mul_inequality(
                        b.count as int,
                        total as int,
                        1000,
                    );
                    vstd::arithmetic::div_mod::lemma_div_is_ordered(
                        b.count as int * 1000,
                        total as int * 1000,
                        total as int,
                    );
                    vstd::arithmetic::div_mod::lemma_div_by_multiple(total as int, 1000);
                    assert(total as int * 1000 == 1000 * total as int) by (nonlinear_arith);
                    assert((total as int * 1000) / (total as int) == 1000) by {
                        vstd::arithmetic::div_mod::lemma_div_multiples_vanish(
                            1000,
                            total as int,
                        );
                    }
                }
                rows.push((label, share, b.total_bytes));
                proof {
                    assert(rows@.map_values(|t: (String, u64, u64)| (t.0@, t.1, t.2))
                        =~= spec_distribution(post, total));
                }
            } else {
                proof {
                    assert(rows@.map_values(|t: (String, u64, u64)| (t.0@, t.1, t.2))
                        =~= spec_distribution(post, total));
                }
            }
            i = i + 1;
        }
        proof {
            assert(self.buckets@.subrange(0, 8) =~= self.buckets@);
        }
        rows
    }

    /// Renders the range label of one bucket.
    fn range_label(b: &SizeBucket) -> (r: String)
        ensures
            r@ == spec_range_label(*b),
    {
        let mut label = Self::format_size(b.min_size);
        proof {
            reveal_strlit("+");
            reveal_strlit("-");
        }
        if b.max_size == usize::MAX {
            label.append("+");
        } else {
            label.append("-");
            let upper = Self::format_size(b.max_size);
            label.append(upper.as_str());
        }
        proof {
            assert(label@ =~= spec_range_label(*b));
        }
        label
    }
}

// ---------------------------------------------------------------------------
// The telemetry aggregate.
// ---------------------------------------------------------------------------

/// The larger of two sizes.
pub open spec fn max_usize(a: usize, b: usize) -> usize {
    if a > b { a } else { b }
}

/// Events-per-second rate in thousandths, derived from a count and an
/// elapsed wall-clock span; zero when no time has elapsed.  Clamped at
/// `u64::MAX`.
pub open spec fn spec_rate_milli(count: u64, elapsed_ns: u64) -> u64 {
    if elapsed_ns == 0 {
        0u64
    } else {
        let r = count as int * 1_000_000_000_000 / elapsed_ns as int;
        if r > u64::MAX { u64::MAX } else { r as u64 }
    }
}

/// The fragmentation proxy `1 - live / peak` in thousandths; zero while
/// nothing was ever allocated.
pub open spec fn spec_fragmentation_milli(live: usize, peak: usize) -> u64 {
    if peak == 0 {
        0u64
    } else {
        ((peak - live) * 1000 / peak as int) as u64
    }
}

/// A consistent snapshot of the telemetry counters, the derived rates, the
/// fragmentation proxy and the latency summary.
#[derive(Debug, Clone, Copy, PartialEq, Eq, Structural)]
pub struct AllocationStats {
    /// Allocations recorded so far.
    pub total_allocations: u64,
    /// Deallocations recorded so far.
    pub total_deallocations: u64,
    /// The live-bytes gauge.
    pub current_allocated_bytes: usize,
    /// The peak watermark of the live-bytes gauge.
    pub peak_allocated_bytes: usize,
    /// Allocations per second since startup, in thousandths.
    pub allocation_rate_milli: u64,
    /// Deallocations per second since startup, in thousandths.
    pub deallocation_rate_milli: u64,
    /// `1 - live / peak`, in thousandths.
    pub fragmentation_milli: u64,
    /// Summary of the retained latency samples.
    pub latency_stats: LatencyStats,
}

/// The snapshot fields determined by the counters, an elapsed span, and a
/// latency summary.
pub open spec fn spec_snapshot_fields(
    allocations: u64,
    deallocations: u64,
    live: usize,
    peak: usize,
    elapsed_ns: u64,
    lat: LatencyStats,
) -> AllocationStats {
    AllocationStats {
        total_allocations: allocations,
        total_deallocations: deallocations,
        current_allocated_bytes: live,
        peak_allocated_bytes: peak,
        allocation_rate_milli: spec_rate_milli(allocations, elapsed_ns),
        deallocation_rate_milli: spec_rate_milli(deallocations, elapsed_ns),
        fragmentation_milli: spec_fragmentation_milli(live, peak),
        latency_stats: lat,
    }
}

/// Telemetry kept by every backend: counters, the live/peak gauges, the
/// latency ring and the size histogram, plus the clock anchors used to
/// derive rates.
#[derive(Debug)]
pub struct MemoryStats {
    /// Number of allocations recorded; clamps at `u64::MAX`.
    pub allocations: u64,
    /// Number of deallocations recorded; clamps at `u64::MAX`.
    pub deallocations: u64,
    /// Live-bytes gauge: clamped at zero on underflow, which is a caller
    /// accounting error.
    pub allocated_bytes: usize,
    /// Peak watermark: always at least `allocated_bytes`.
    pub peak_bytes: usize,
    /// Number of failed allocations reported.
    pub failed_allocations: u64,
    /// Ring of recent allocation latencies.
    pub latency_history: LatencyTracker,
    /// Histogram of allocation sizes.
    pub allocation_sizes: SizeDistribution,
    /// Clock anchor set at construction; rates are measured from it.
    pub start_time: std::time::Instant,
    /// Clock anchor of the most recent recorded event.
    pub last_update: std::time::Instant,
}

impl MemoryStats {
    /// The structural invariant: the ring and histogram are well formed,
    /// the peak dominates the gauge, and no bucket outcounts the total.
    pub open spec fn wf(&self) -> bool {
        &&& self.latency_history.wf()
        &&& self.allocation_sizes.wf()
        &&& self.allocated_bytes <= self.peak_bytes
        &&& forall|i: int|
            0 <= i < self.allocation_sizes.buckets@.len() ==> (
            #[trigger] self.allocation_sizes.buckets@[i]).count
                <= self.allocation_sizes.total_count
    }

    /// Every counter and history is zero.
    pub open spec fn is_zeroed(&self) -> bool {
        &&& self.allocations == 0
        &&& self.deallocations == 0
        &&& self.allocated_bytes == 0
        &&& self.peak_bytes == 0
        &&& self.failed_allocations == 0
        &&& self.latency_history.samples@.len() == 0
        &&& self.allocation_sizes.is_zeroed()
    }

    /// Fresh telemetry with every counter at zero.
    pub fn new() -> (r: Self)
        ensures
            r.wf(),
            r.is_zeroed(),
    {
        let now = instant_now();
        MemoryStats {
            allocations: 0,
            deallocations: 0,
            allocated_bytes: 0,
            peak_bytes: 0,
            failed_allocations: 0,
            latency_history: LatencyTracker::new(),
            allocation_sizes: SizeDistribution::new(),
            start_time: now,
            last_update: now,
        }
    }

    /// Nanoseconds since this telemetry was created.
    pub fn uptime(&self) -> u64 {
        elapsed_ns_since(&self.start_time)
    }

    /// Nanoseconds since the last recorded event.
    pub fn time_since_last_update(&self) -> u64 {
        elapsed_ns_since(&self.last_update)
    }

    /// Records one successful allocation of `size` bytes that took
    /// `latency_ns`: bumps the counter, raises the gauge, lifts the peak to
    /// the new gauge if it grew past it, and feeds the ring and histogram.
    /// The peak never decreases.
    pub fn record_allocation(&mut self, size: usize, latency_ns: u64)
        requires
            old(self).wf(),
        ensures
            final(self).wf(),
            final(self).allocations == sat_add_u64(old(self).allocations, 1),
            final(self).deallocations == old(self).deallocations,
            final(self).failed_allocations == old(self).failed_allocations,
            final(self).allocated_bytes == sat_add_usize(old(self).allocated_bytes, size),
            final(self).peak_bytes == max_usize(old(self).peak_bytes, final(self).allocated_bytes),
            final(self).peak_bytes >= old(self).peak_bytes,
            final(self).latency_history.samples@ == (if old(self).latency_history.samples@.len()
                >= HISTORY_SIZE {
                old(self).latency_history.samples@.drop_first().push(latency_ns)
            } else {
                old(self).latency_history.samples@.push(latency_ns)
            }),
            final(self).allocation_sizes.total_count == sat_add_u64(
                old(self).allocation_sizes.total_count,
                1,
            ),
            ({
                let k = spec_bucket_index(size);
                &&& final(self).allocation_sizes.buckets@[k].count == sat_add_u64(
                    old(self).allocation_sizes.buckets@[k].count,
                    1,
                )
                &&& final(self).allocation_sizes.buckets@[k].total_bytes == sat_add_u64(
                    old(self).allocation_sizes.buckets@[k].total_bytes,
                    size as u64,
                )
                &&& forall|i: int|
                    0 <= i < 8 && i != k ==> final(self).allocation_sizes.buckets@[i] == old(self).allocation_sizes.buckets@[i]
            }),
    {
        self.allocations = add_sat_u64(self.allocations, 1);
        self.allocated_bytes = add_sat_usize(self.allocated_bytes, size);
        if self.allocated_bytes > self.peak_bytes {
            self.peak_bytes = self.allocated_bytes;
        }
        self.latency_history.record(latency_ns);
        self.allocation_sizes.record(size);
        self.last_update = instant_now();
    }

    /// Records one deallocation of `size` bytes: bumps the counter and
    /// lowers the gauge, clamping at zero on a caller accounting error.
    /// The peak and the histories are untouched.
    pub fn record_deallocation(&mut self, size: usize)
        requires
            old(self).wf(),
        ensures
            final(self).wf(),
            final(self).deallocations == sat_add_u64(old(self).deallocations, 1),
            final(self).allocations == old(self).allocations,
            final(self).failed_allocations == old(self).failed_allocations,
            final(self).allocated_bytes == clamped_sub_usize(old(self).allocated_bytes, size),
            final(self).peak_bytes == old(self).peak_bytes,
            final(self).latency_history == old(self).latency_history,
            final(self).allocation_sizes == old(self).allocation_sizes,
    {
        self.deallocations = add_sat_u64(self.deallocations, 1);
        self.allocated_bytes = sub_clamped_usize(self.allocated_bytes, size);
        self.last_update = instant_now();
    }

    /// Records one failed allocation; only the failure counter moves.
    pub fn record_failed_allocation(&mut self)
        requires
            old(self).wf(),
        ensures
            final(self).wf(),
            final(self).failed_allocations == sat_add_u64(old(self).failed_allocations, 1),
            final(self).allocations == old(self).allocations,
            final(self).deallocations == old(self).deallocations,
            final(self).allocated_bytes == old(self).allocated_bytes,
            final(self).peak_bytes == old(self).peak_bytes,
            final(self).latency_history == old(self).latency_history,
            final(self).allocation_sizes == old(self).allocation_sizes,
    {
        self.failed_allocations = add_sat_u64(self.failed_allocations, 1);
    }

    /// The fragmentation proxy `1 - live / peak` in thousandths.
    fn calculate_fragmentation(&self) -> (r: u64)
        requires
            self.allocated_bytes <= self.peak_bytes,
        ensures
            r == spec_fragmentation_milli(self.allocated_bytes, self.peak_bytes),
    {
        if self.peak_bytes == 0 {
            0
        } else {
            let gap: u128 = (self.peak_bytes - self.allocated_bytes) as u128;
            let r: u128 = gap * 1000 / (self.peak_bytes as u128);
            proof {
                let g = (self.peak_bytes - self.allocated_bytes) as int;
                let p = self.peak_bytes as int;
                vstd::arithmetic::mul::lemma_mul_inequality(g, p, 1000);
                vstd::arithmetic::div_mod::lemma_div_is_ordered(g * 1000, p * 1000, p);
                assert(p * 1000 == 1000 * p) by (nonlinear_arith);
                vstd::arithmetic::div_mod::lemma_div_multiples_vanish(1000, p);
            }
            r as u64
        }
    }

    /// Builds the snapshot for a given elapsed span, so that every field is
    /// a function of the telemetry state and that span.
    pub fn snapshot_with_elapsed(&mut self, elapsed_ns: u64) -> (r: AllocationStats)
        requires
            old(self).wf(),
        ensures
            final(self).wf(),
            final(self).allocations == old(self).allocations,
            final(self).deallocations == old(self).deallocations,
            final(self).allocated_bytes == old(self).allocated_bytes,
            final(self).peak_bytes == old(self).peak_bytes,
            final(self).failed_allocations == old(self).failed_allocations,
            final(self).latency_history.samples@ == old(self).latency_history.samples@,
            final(self).allocation_sizes == old(self).allocation_sizes,
            old(self).latency_history.samples@.len() == 0 ==> r == spec_snapshot_fields(
                old(self).allocations,
                old(self).deallocations,
                old(self).allocated_bytes,
                old(self).peak_bytes,
                elapsed_ns,
                zero_latency_stats(),
            ),
            old(self).latency_history.samples@.len() > 0 ==> {
                &&& sorted_ascending(final(self).latency_history.sorted_cache@)
                &&& final(self).latency_history.sorted_cache@.to_multiset()
                    == final(self).latency_history.samples@.to_multiset()
                &&& r == spec_snapshot_fields(
                    old(self).allocations,
                    old(self).deallocations,
                    old(self).allocated_bytes,
                    old(self).peak_bytes,
                    elapsed_ns,
                    LatencyStats {
                        mean_milli_ns: spec_mean_milli(final(self).latency_history.samples@),
                        median_ns: spec_percentile(final(self).latency_history.sorted_cache@, 500),
                        p90_ns: spec_percentile(final(self).latency_history.sorted_cache@, 900),
                        p95_ns: spec_percentile(final(self).latency_history.sorted_cache@, 950),
                        p99_ns: spec_percentile(final(self).latency_history.sorted_cache@, 990),
                        p999_ns: spec_percentile(final(self).latency_history.sorted_cache@, 999),
                        min_ns: min_ns(final(self).latency_history.samples@),
                        max_ns: max_ns(final(self).latency_history.samples@),
                    },
                )
            },
    {
        let latency_stats = self.latency_history.get_stats();
        let rate_alloc = rate_milli(self.allocations, elapsed_ns);
        let rate_dealloc = rate_milli(self.deallocations, elapsed_ns);
        let frag = self.calculate_fragmentation();
        AllocationStats {
            total_allocations: self.allocations,
            total_deallocations: self.deallocations,
            current_allocated_bytes: self.allocated_bytes,
            peak_allocated_bytes: self.peak_bytes,
            allocation_rate_milli: rate_alloc,
            deallocation_rate_milli: rate_dealloc,
            fragmentation_milli: frag,
            latency_stats,
        }
    }

    /// Takes a snapshot against the wall clock.  All counter-derived fields
    /// are pinned; the two rates are derived from the clock reading, which
    /// is the same for both.
    pub fn get_snapshot(&mut self) -> (r: AllocationStats)
        requires
            old(self).wf(),
        ensures
            final(self).wf(),
            final(self).allocations == old(self).allocations,
            final(self).deallocations == old(self).deallocations,
            final(self).allocated_bytes == old(self).allocated_bytes,
            final(self).peak_bytes == old(self).peak_bytes,
            final(self).failed_allocations == old(self).failed_allocations,
            final(self).latency_history.samples@ == old(self).latency_history.samples@,
            final(self).allocation_sizes == old(self).allocation_sizes,
            r.total_allocations == old(self).allocations,
            r.total_deallocations == old(self).deallocations,
            r.current_allocated_bytes == old(self).allocated_bytes,
            r.peak_allocated_bytes == old(self).peak_bytes,
            r.fragmentation_milli == spec_fragmentation_milli(
                old(self).allocated_bytes,
                old(self).peak_bytes,
            ),
            exists|e: u64|
                r.allocation_rate_milli == spec_rate_milli(old(self).allocations, e)
                    && r.deallocation_rate_milli == spec_rate_milli(old(self).deallocations, e),
            old(self).latency_history.samples@.len() == 0 ==> r.latency_stats
                == zero_latency_stats(),
            old(self).latency_history.samples@.len() > 0 ==> {
                &&& sorted_ascending(final(self).latency_history.sorted_cache@)
                &&& final(self).latency_history.sorted_cache@.to_multiset()
                    == final(self).latency_history.samples@.to_multiset()
                &&& r.latency_stats == (LatencyStats {
                    mean_milli_ns: spec_mean_milli(final(self).latency_history.samples@),
                    median_ns: spec_percentile(final(self).latency_history.sorted_cache@, 500),
                    p90_ns: spec_percentile(final(self).latency_history.sorted_cache@, 900),
                    p95_ns: spec_percentile(final(self).latency_history.sorted_cache@, 950),
                    p99_ns: spec_percentile(final(self).latency_history.sorted_cache@, 990),
                    p999_ns: spec_percentile(final(self).latency_history.sorted_cache@, 999),
                    min_ns: min_ns(final(self).latency_history.samples@),
                    max_ns: max_ns(final(self).latency_history.samples@),
                })
            },
    {
        let elapsed = elapsed_ns_since(&self.start_time);
        let r = self.snapshot_with_elapsed(elapsed);
        proof {
            assert(r.allocation_rate_milli == spec_rate_milli(old(self).allocations, elapsed)
                && r.deallocation_rate_milli == spec_rate_milli(old(self).deallocations, elapsed));
        }
        r
    }

    /// The histogram report rows: label, share in thousandths, total bytes.
    pub fn get_size_distribution(&self) -> (r: Vec<(String, u64, u64)>)
        requires
            self.wf(),
        ensures
            self.allocation_sizes.total_count == 0 ==> r@.len() == 0,
            self.allocation_sizes.total_count > 0 ==> r@.map_values(
                |t: (String, u64, u64)| (t.0@, t.1, t.2),
            ) == spec_distribution(
                self.allocation_sizes.buckets@,
                self.allocation_sizes.total_count,
            ),
    {
        self.allocation_sizes.get_distribution()
    }

    /// Zeroes every counter and discards both histories.  The startup
    /// anchor is kept, as the original rates are measured from startup.
    pub fn reset(&mut self)
        ensures
            final(self).wf(),
            final(self).is_zeroed(),
    {
        self.allocations = 0;
        self.deallocations = 0;
        self.allocated_bytes = 0;
        self.peak_bytes = 0;
        self.failed_allocations = 0;
        self.latency_history = LatencyTracker::new();
        self.allocation_sizes = SizeDistribution::new();
        self.last_update = instant_now();
    }
}

/// Events-per-second rate in thousandths.
fn rate_milli(count: u64, elapsed_ns: u64) -> (r: u64)
    ensures
        r == spec_rate_milli(count, elapsed_ns),
{
    if elapsed_ns == 0 {
        0
    } else {
        let wide: u128 = (count as u128) * 1_000_000_000_000 / (elapsed_ns as u128);
        proof {
            assert((count as u128) * 1_000_000_000_000 == count as int * 1_000_000_000_000)
                by (nonlinear_arith);
        }
        if wide > (u64::MAX as u128) {
            u64::MAX
        } else {
            wide as u64
        }
    }
}

/// A snapshot taken right after a reset is all zeros: the counters are
/// zero, both rates are zero whatever span has elapsed, the fragmentation
/// proxy is zero, and the latency summary is the zero summary.
pub proof fn lemma_reset_snapshot_zero(elapsed_ns: u64)
    ensures
        spec_snapshot_fields(0, 0, 0, 0, elapsed_ns, zero_latency_stats()) == (AllocationStats {
            total_allocations: 0,
            total_deallocations: 0,
            current_allocated_bytes: 0,
            peak_allocated_bytes: 0,
            allocation_rate_milli: 0,
            deallocation_rate_milli: 0,
            fragmentation_milli: 0,
            latency_stats: zero_latency_stats(),
        }),
{
    assert(spec_rate_milli(0, elapsed_ns) == 0) by {
        if elapsed_ns != 0 {
            assert(0int * 1_000_000_000_000 == 0) by (nonlinear_arith);
            assert(0int / elapsed_ns as int == 0) by (nonlinear_arith)
                requires elapsed_ns != 0,
            ;
        }
    }
}

// ---------------------------------------------------------------------------
// The accounting laws: the gauge tracks the net of the recorded events, so
// matched pairs return it to its start; the peak never decreases.
// ---------------------------------------------------------------------------

/// One recorded event: `true` marks an allocation of the given size,
/// `false` a deallocation.
pub type StatsOp = (bool, usize);

/// The net bytes of a sequence of events: allocations count positive,
/// deallocations negative.
pub open spec fn net_bytes(ops: Seq<StatsOp>) -> int
    decreases ops.len(),
{
    if ops.len() == 0 {
        0
    } else {
        net_bytes(ops.drop_last()) + (if ops.last().0 {
            ops.last().1 as int
        } else {
            -(ops.last().1 as int)
        })
    }
}

/// The gauge and peak after one recorded event, exactly as
/// `record_allocation` and `record_deallocation` move them.
pub open spec fn stats_step(live: usize, peak: usize, op: StatsOp) -> (usize, usize) {
    if op.0 {
        let live2 = sat_add_usize(live, op.1);
        (live2, max_usize(peak, live2))
    } else {
        (clamped_sub_usize(live, op.1), peak)
    }
}

/// The gauge and peak after a sequence of recorded events.
pub open spec fn stats_after_ops(live: usize, peak: usize, ops: Seq<StatsOp>) -> (usize, usize)
    decreases ops.len(),
{
    if ops.len() == 0 {
        (live, peak)
    } else {
        let prev = stats_after_ops(live, peak, ops.drop_last());
        stats_step(prev.0, prev.1, ops.last())
    }
}

/// As long as the running balance never leaves the representable range —
/// no deallocation outruns the allocations before it and the gauge never
/// overflows — the live-bytes gauge equals its start plus the net bytes of
/// the events.
pub proof fn lemma_live_tracks_net(live0: usize, peak0: usize, ops: Seq<StatsOp>)
    requires
        forall|k: int|
            0 <= k <= ops.len() ==> 0 <= live0 + net_bytes(#[trigger] ops.subrange(0, k))
                <= usize::MAX,
    ensures
        stats_after_ops(live0, peak0, ops).0 == live0 + net_bytes(ops),
    decreases ops.len(),
{
    if ops.len() == 0 {
        assert(ops.subrange(0, 0) =~= ops);
    } else {
        let shorter = ops.drop_last();
        assert(forall|k: int|
            0 <= k <= shorter.len() ==> ops.subrange(0, k) =~= shorter.subrange(0, k));
        lemma_live_tracks_net(live0, peak0, shorter);
        assert(ops.subrange(0, ops.len() as int) =~= ops);
        assert(ops.subrange(0, ops.len() - 1) =~= shorter);
    }
}

/// For any sequence of matched allocate/deallocate events — net zero, with
/// the running balance always representable — the live-bytes gauge returns
/// to its starting value.
pub proof fn lemma_matched_ops_restore_live(live0: usize, peak0: usize, ops: Seq<StatsOp>)
    requires
        net_bytes(ops) == 0,
        forall|k: int|
            0 <= k <= ops.len() ==> 0 <= live0 + net_bytes(#[trigger] ops.subrange(0, k))
                <= usize::MAX,
    ensures
        stats_after_ops(live0, peak0, ops).0 == live0,
{
    lemma_live_tracks_net(live0, peak0, ops);
}

/// The peak watermark never decreases over any sequence of recorded
/// events.
pub proof fn lemma_peak_monotone(live0: usize, peak0: usize, ops: Seq<StatsOp>)
    ensures
        stats_after_ops(live0, peak0, ops).1 >= peak0,
    decreases ops.len(),
{
    if ops.len() == 0 {
    } else {
        lemma_peak_monotone(live0, peak0, ops.drop_last());
    }
}

/// A timer wrapped around one allocation, read in nanoseconds when the
/// allocation completes.
#[derive(Debug, Clone, Copy)]
pub struct AllocationTimer {
    /// The instant the allocation entered the backend.
    pub start: std::time::Instant,
}

impl AllocationTimer {
    /// Starts timing at the current instant.
    pub fn start() -> Self {
        AllocationTimer { start: instant_now() }
    }

    /// Nanoseconds elapsed since timing started.
    pub fn elapsed_ns(&self) -> u64 {
        elapsed_ns_since(&self.start)
    }
}

} // verus!
