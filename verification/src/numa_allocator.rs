//! The NUMA-aware allocator: one lock-free chunk pool per NUMA node,
//! thread-to-node steering by CPU affinity, cache or hash, and a
//! per-call node choice — round-robin interleave, local preference, or a
//! fixed node — with fall-through to every other node before a request
//! is refused.

use vstd::prelude::*;
use std::collections::HashMap;
use crate::allocator::{AllocError, MemoryAllocator, power_of_two, spec_power_of_two};
use crate::chunk_queue::chunk_queue_view;
use crate::lock_free_pool::{LockFreeMemoryPool, MemoryChunk, PoolConfig, CACHE_LINE_SIZE};
use crate::stats::{
    add_sat_usize, mul_sat_usize, sat_add_usize, sat_mul_usize, sub_clamped_usize,
};

verus! {

broadcast use vstd::std_specs::hash::group_hash_axioms, vstd::map::group_map_axioms;

/// Nodes assumed when the platform offers no topology.
pub const DEFAULT_NUMA_NODES: usize = 2;

/// One NUMA node: its id, the CPUs homed on it, its memory in bytes, and
/// the abstract access cost from it to every other node.
#[derive(Clone, Debug)]
pub struct NumaNode {
    /// The node's id; in a well-formed topology, also its index.
    pub id: usize,
    /// The CPUs homed on this node.
    pub cpu_mask: Vec<usize>,
    /// The node's memory in bytes.
    pub memory_size: u64,
    /// Access cost from this node to every other: 10 for itself, 20 for a
    /// remote node by default.
    pub distance_map: HashMap<usize, u8>,
}

/// Configuration of a NUMA-aware allocator.
#[derive(Clone, Debug)]
pub struct NumaConfig {
    /// The topology, one entry per node.
    pub nodes: Vec<NumaNode>,
    /// Spread allocations round-robin over the nodes.
    pub interleave: bool,
    /// Prefer the calling thread's home node when not interleaving.
    pub local_alloc_preference: bool,
    /// Advisory migration threshold; kept for configuration parity.
    pub migration_threshold: usize,
    /// Configuration of every node's pool; the per-node chunk cap is
    /// derived from the node's memory size.
    pub pool_config: PoolConfig,
}

/// A synthetic distance map for the node `own`: every node below `upto`
/// is present, at cost 10 for `own` itself and 20 for a remote node, and
/// nothing else is present.
pub open spec fn synthetic_distances(m: Map<usize, u8>, own: usize, upto: usize) -> bool {
    &&& forall|d: usize|
        d < upto ==> #[trigger] m.contains_key(d) && m[d] == (if own == d {
            10u8
        } else {
            20u8
        })
    &&& forall|k: usize| #[trigger] m.contains_key(k) ==> k < upto
}

impl Default for NumaConfig {
    /// The synthetic fallback topology: two nodes of eight CPUs and
    /// 32 GiB each, local distance 10, remote distance 20, local
    /// preference on.
    fn default() -> (r: Self)
        ensures
            r.nodes@.len() == DEFAULT_NUMA_NODES,
            forall|i: int|
                0 <= i < r.nodes@.len() ==> {
                    &&& (#[trigger] r.nodes@[i]).id == i
                    &&& r.nodes@[i].memory_size == 32u64 * 1024 * 1024 * 1024
                    &&& r.nodes@[i].cpu_mask@.len() == 8
                    &&& forall|c: int|
                        0 <= c < 8 ==> #[trigger] r.nodes@[i].cpu_mask@[c] == i * 8 + c
                    &&& synthetic_distances(
                        r.nodes@[i].distance_map@,
                        r.nodes@[i].id,
                        DEFAULT_NUMA_NODES,
                    )
                },
            !r.interleave,
            r.local_alloc_preference,
            r.migration_threshold == 1000,
            r.pool_config.alignment >= CACHE_LINE_SIZE,
    {
        let mut nodes: Vec<NumaNode> = Vec::new();
        let mut i: usize = 0;
        while i < DEFAULT_NUMA_NODES
            invariant
                i <= DEFAULT_NUMA_NODES,
                nodes@.len() == i,
                forall|k: int|
                    0 <= k < i ==> {
                        &&& (#[trigger] nodes@[k]).id == k
                        &&& nodes@[k].memory_size == 32u64 * 1024 * 1024 * 1024
                        &&& nodes@[k].cpu_mask@.len() == 8
                        &&& forall|c: int|
                            0 <= c < 8 ==> #[trigger] nodes@[k].cpu_mask@[c] == k * 8 + c
                        &&& synthetic_distances(
                            nodes@[k].distance_map@,
                            nodes@[k].id,
                            DEFAULT_NUMA_NODES,
                        )
                    },
            decreases DEFAULT_NUMA_NODES - i,
        {
            let mut distance_map: HashMap<usize, u8> = HashMap::new();
            let mut j: usize = 0;
            while j < DEFAULT_NUMA_NODES
                invariant
                    j <= DEFAULT_NUMA_NODES,
                    i < DEFAULT_NUMA_NODES,
                    synthetic_distances(distance_map@, i, j),
                decreases DEFAULT_NUMA_NODES - j,
            {
                let ghost pre_map = distance_map@;
                distance_map.insert(j, if i == j { 10 } else { 20 });
                proof {
                    assert(distance_map@ == pre_map.insert(
                        j,
                        if i == j {
                            10u8
                        } else {
                            20u8
                        },
                    ));
                    assert(synthetic_distances(distance_map@, i, (j + 1) as usize)) by {
                        assert forall|d: usize|
                            d < j + 1 implies #[trigger] distance_map@.contains_key(d)
                                && distance_map@[d] == (if i == d {
                                10u8
                            } else {
                                20u8
                            }) by {
                            if d < j {
                                assert(pre_map.contains_key(d));
                                assert(pre_map[d] == (if i == d {
                                    10u8
                                } else {
                                    20u8
                                }));
                            }
                        }
                        assert forall|k: usize|
                            #[trigger] distance_map@.contains_key(k) implies k < j + 1 by {
                            if k != j {
                                assert(pre_map.contains_key(k));
                            }
                        }
                    }
                }
                j = j + 1;
            }
            let mut cpu_mask: Vec<usize> = Vec::new();
            let mut c: usize = 0;
            while c < 8
                invariant
                    i < DEFAULT_NUMA_NODES,
                    c <= 8,
                    cpu_mask@.len() == c,
                    forall|k: int| 0 <= k < c ==> #[trigger] cpu_mask@[k] == i * 8 + k,
                decreases 8 - c,
            {
                cpu_mask.push(i * 8 + c);
                c = c + 1;
            }
            nodes.push(
                NumaNode { id: i, cpu_mask, memory_size: 32u64 * 1024 * 1024 * 1024, distance_map },
            );
            i = i + 1;
        }
        let pool_config = PoolConfig::default();
        NumaConfig {
            nodes,
            interleave: false,
            local_alloc_preference: true,
            migration_threshold: 1000,
            pool_config,
        }
    }
}

/// Accounting kept by the NUMA allocator.
#[derive(Clone, Debug, Default)]
pub struct NumaStats {
    /// Allocations attributed to each node, by node index.
    pub allocations_per_node: HashMap<usize, usize>,
    /// Allocations that fell through to a node other than the preferred
    /// one.
    pub cross_node_allocations: usize,
    /// Allocations served by the preferred node.
    pub local_allocations: usize,
    /// Total requested bytes over the allocator's life.
    pub total_bytes_allocated: usize,
    /// Per-node figures captured at construction.
    pub node_stats: Vec<NodeStats>,
}

/// Per-node accounting figures.
#[derive(Clone, Copy, Debug, Default, PartialEq, Eq, Structural)]
pub struct NodeStats {
    /// The node's id.
    pub node_id: usize,
    /// Allocations attributed to the node.
    pub allocations: usize,
    /// Deallocations attributed to the node.
    pub deallocations: usize,
    /// Bytes allocated from the node.
    pub bytes_allocated: usize,
    /// Bytes freed back to the node.
    pub bytes_freed: usize,
    /// Chunks handed out by the node's pool.
    pub allocated_chunks: usize,
    /// Chunks free in the node's pool.
    pub free_chunks: usize,
    /// Total bytes owned by the node's pool.
    pub total_memory: usize,
}

/// A compact view of the allocator's accounting, built without cloning
/// the full per-node map.
#[derive(Debug, Clone)]
pub struct NumaStatsSnapshot {
    /// Allocations that fell through to another node.
    pub cross_node_allocations: usize,
    /// Allocations served by the preferred node.
    pub local_allocations: usize,
    /// Total requested bytes over the allocator's life.
    pub total_bytes_allocated: usize,
    /// One row per node: (node index, chunks handed out, chunks free,
    /// total pool bytes).
    pub node_summaries: Vec<(usize, usize, usize, usize)>,
}

/// The first node index in `nodes` whose CPU mask holds `cpu`, or the
/// node count when none does.
pub open spec fn spec_node_for_cpu(nodes: Seq<NumaNode>, cpu: usize) -> int
    decreases nodes.len(),
{
    if nodes.len() == 0 {
        0
    } else if nodes.first().cpu_mask@.contains(cpu) {
        0
    } else {
        1 + spec_node_for_cpu(nodes.drop_first(), cpu)
    }
}

/// A scan that passed only nodes missing the CPU and stopped at one that
/// holds it stopped exactly at the first such node.
proof fn lemma_node_for_cpu_at(nodes: Seq<NumaNode>, cpu: usize, i: int)
    requires
        0 <= i <= nodes.len(),
        forall|j: int| 0 <= j < i ==> !(#[trigger] nodes[j]).cpu_mask@.contains(cpu),
        i < nodes.len() ==> nodes[i].cpu_mask@.contains(cpu),
    ensures
        i < nodes.len() ==> spec_node_for_cpu(nodes, cpu) == i,
        i == nodes.len() ==> spec_node_for_cpu(nodes, cpu) == nodes.len(),
    decreases nodes.len(),
{
    if nodes.len() == 0 {
    } else if nodes.first().cpu_mask@.contains(cpu) {
        assert(i == 0);
    } else {
        assert(i >= 1);
        lemma_node_for_cpu_at(nodes.drop_first(), cpu, i - 1);
    }
}

/// The fields of a pool that steer allocation decisions: everything but
/// its telemetry's failure counter and clock anchors.
pub open spec fn pool_core_unchanged(a: LockFreeMemoryPool, b: LockFreeMemoryPool) -> bool {
    &&& b.config == a.config
    &&& chunk_queue_view(b.free_chunks) == chunk_queue_view(a.free_chunks)
    &&& b.allocated_count == a.allocated_count
    &&& b.free_count == a.free_count
    &&& b.generation == a.generation
    &&& b.total_memory == a.total_memory
    &&& b.stats.allocations == a.stats.allocations
    &&& b.stats.deallocations == a.stats.deallocations
    &&& b.stats.allocated_bytes == a.stats.allocated_bytes
    &&& b.stats.peak_bytes == a.stats.peak_bytes
}

/// Every node below `upto` has a zeroed entry in the per-node
/// allocation map.
pub open spec fn zeroed_node_counts(m: Map<usize, usize>, nodes: Seq<NumaNode>, upto: int) -> bool {
    forall|k: int|
        0 <= k < upto ==> #[trigger] m.contains_key(nodes[k].id) && m[nodes[k].id] == 0
}

/// The chunk cap a node's memory affords: its bytes divided by the
/// chunk size, clamped to the machine.
pub open spec fn spec_node_cap(memory_size: u64, chunk_size: usize) -> usize
    recommends
        chunk_size > 0,
{
    if memory_size as int / chunk_size as int > usize::MAX {
        usize::MAX
    } else {
        (memory_size as int / chunk_size as int) as usize
    }
}

/// The NUMA-aware allocator.
#[derive(Debug)]
pub struct NumaAllocator {
    /// The topology and policy, fixed at construction.
    pub config: NumaConfig,
    /// One lock-free chunk pool per node.
    pub node_pools: Vec<LockFreeMemoryPool>,
    /// The next node the interleave policy will pick.
    pub current_node: usize,
    /// The allocator's accounting.
    pub allocation_stats: NumaStats,
    /// Node assignments cached per thread key; never invalidated, so a
    /// migrating thread keeps its original node — stability over
    /// freshness, by design.
    pub thread_node_cache: HashMap<u64, usize>,
    /// The most recent steering result, used by the local-preference
    /// policy.
    pub last_home: usize,
    /// Bytes currently handed out, over all nodes.
    pub in_use_bytes: usize,
    /// Peak watermark of `in_use_bytes`.
    pub peak_in_use_bytes: usize,
}

impl NumaAllocator {
    /// The structural invariant: one well-formed pool per node, all
    /// sharing the configured chunk size and alignment, and the steering
    /// state within bounds.
    pub open spec fn wf(&self) -> bool {
        &&& self.node_pools@.len() == self.config.nodes@.len()
        &&& self.node_pools@.len() >= 1
        &&& forall|i: int|
            0 <= i < self.node_pools@.len() ==> (#[trigger] self.node_pools@[i]).wf()
        &&& forall|i: int|
            0 <= i < self.node_pools@.len() ==> (#[trigger] self.node_pools@[i]).config.chunk_size
                == self.config.pool_config.chunk_size
        &&& forall|i: int|
            0 <= i < self.node_pools@.len() ==> (#[trigger] self.node_pools@[i]).config.alignment
                == self.config.pool_config.alignment
        &&& self.current_node < self.node_pools@.len()
        &&& self.last_home < self.node_pools@.len()
        &&& forall|k: u64|
            self.thread_node_cache@.contains_key(k) ==> #[trigger] self.thread_node_cache@[k]
                < self.node_pools@.len()
        &&& self.in_use_bytes <= self.peak_in_use_bytes
        &&& self.config.pool_config.chunk_size > 0
        &&& spec_power_of_two(self.config.pool_config.alignment)
    }

    /// Builds one pool per node, capping each pool's chunks by the node's
    /// memory.  An empty topology or an invalid pool configuration is
    /// rejected as an invalid layout.
    pub fn new(config: NumaConfig) -> (r: Result<Self, AllocError>)
        ensures
            r matches Ok(a) ==> {
                &&& a.wf()
                &&& a.config.nodes == config.nodes
                &&& a.config.interleave == config.interleave
                &&& a.config.local_alloc_preference == config.local_alloc_preference
                &&& a.node_pools@.len() == config.nodes@.len()
                &&& a.current_node == 0
                &&& a.last_home == 0
                &&& a.in_use_bytes == 0
                &&& a.peak_in_use_bytes == 0
                &&& a.allocation_stats.cross_node_allocations == 0
                &&& a.allocation_stats.local_allocations == 0
                &&& a.allocation_stats.total_bytes_allocated == 0
                &&& forall|i: int|
                    0 <= i < config.nodes@.len() ==> {
                        &&& (#[trigger] a.node_pools@[i]).config.max_chunks == spec_node_cap(
                            config.nodes@[i].memory_size,
                            config.pool_config.chunk_size,
                        )
                        &&& a.node_pools@[i].config.initial_chunks
                            == config.pool_config.initial_chunks
                        &&& a.node_pools@[i].config.zero_on_dealloc
                            == config.pool_config.zero_on_dealloc
                        &&& a.node_pools@[i].allocated_count == 0
                        &&& a.node_pools@[i].free_count == config.pool_config.initial_chunks
                    }
                &&& zeroed_node_counts(
                    a.allocation_stats.allocations_per_node@,
                    config.nodes@,
                    config.nodes@.len() as int,
                )
                &&& a.allocation_stats.node_stats@.len() == config.nodes@.len()
                &&& forall|i: int|
                    0 <= i < config.nodes@.len() ==> #[trigger] a.allocation_stats.node_stats@[i]
                        == (NodeStats {
                        node_id: config.nodes@[i].id,
                        allocations: 0,
                        deallocations: 0,
                        bytes_allocated: 0,
                        bytes_freed: 0,
                        allocated_chunks: 0,
                        free_chunks: 0,
                        total_memory: 0,
                    })
                &&& a.thread_node_cache@ == Map::<u64, usize>::empty()
            },
            config.nodes@.len() > 0 && (spec_power_of_two(config.pool_config.chunk_size)
                || config.pool_config.chunk_size >= CACHE_LINE_SIZE) && spec_power_of_two(
                config.pool_config.alignment,
            ) ==> r is Ok,
            config.nodes@.len() == 0 ==> r is Err,
            !(spec_power_of_two(config.pool_config.chunk_size)
                || config.pool_config.chunk_size >= CACHE_LINE_SIZE) ==> r is Err,
            !spec_power_of_two(config.pool_config.alignment) ==> r is Err,
    {
        if config.nodes.len() == 0 {
            return Err(
                AllocError::InvalidLayout(
                    <String as vstd::string::StringExecFns>::from_str("NUMA topology has no nodes"),
                ),
            );
        }
        let n = config.nodes.len();
        let mut node_pools: Vec<LockFreeMemoryPool> = Vec::new();
        let mut allocations_per_node: HashMap<usize, usize> = HashMap::new();
        let mut node_stats: Vec<NodeStats> = Vec::new();
        let mut i: usize = 0;
        while i < n
            invariant
                n == config.nodes@.len(),
                i <= n,
                node_pools@.len() == i,
                forall|k: int| 0 <= k < i ==> (#[trigger] node_pools@[k]).wf(),
                forall|k: int|
                    0 <= k < i ==> (#[trigger] node_pools@[k]).config.chunk_size
                        == config.pool_config.chunk_size,
                forall|k: int|
                    0 <= k < i ==> (#[trigger] node_pools@[k]).config.alignment
                        == config.pool_config.alignment,
                forall|k: int|
                    0 <= k < i ==> {
                        &&& (#[trigger] node_pools@[k]).config.max_chunks == spec_node_cap(
                            config.nodes@[k].memory_size,
                            config.pool_config.chunk_size,
                        )
                        &&& node_pools@[k].config.initial_chunks
                            == config.pool_config.initial_chunks
                        &&& node_pools@[k].config.zero_on_dealloc
                            == config.pool_config.zero_on_dealloc
                        &&& node_pools@[k].allocated_count == 0
                        &&& node_pools@[k].free_count == config.pool_config.initial_chunks
                    },
                zeroed_node_counts(allocations_per_node@, config.nodes@, i as int),
                node_stats@.len() == i,
                forall|k: int|
                    0 <= k < i ==> #[trigger] node_stats@[k] == (NodeStats {
                        node_id: config.nodes@[k].id,
                        allocations: 0,
                        deallocations: 0,
                        bytes_allocated: 0,
                        bytes_freed: 0,
                        allocated_chunks: 0,
                        free_chunks: 0,
                        total_memory: 0,
                    }),
                i > 0 ==> config.pool_config.chunk_size > 0,
                i > 0 ==> spec_power_of_two(config.pool_config.chunk_size)
                    || config.pool_config.chunk_size >= CACHE_LINE_SIZE,
                i > 0 ==> spec_power_of_two(config.pool_config.alignment),
            decreases n - i,
        {
            let node_memory = config.nodes[i].memory_size;
            let node_id = config.nodes[i].id;
            let mut pool_config = config.pool_config;
            let chunk_cap: u64 = node_memory / (if pool_config.chunk_size == 0 {
                1
            } else {
                pool_config.chunk_size as u64
            });
            pool_config.max_chunks = if chunk_cap > (usize::MAX as u64) {
                usize::MAX
            } else {
                chunk_cap as usize
            };
            let pool = match LockFreeMemoryPool::new(pool_config) {
                Ok(p) => p,
                Err(e) => {
                    return Err(e);
                },
            };
            proof {
                assert(config.pool_config.chunk_size > 0);
                assert(pool_config.max_chunks == spec_node_cap(
                    node_memory,
                    config.pool_config.chunk_size,
                ));
            }
            node_pools.push(pool);
            let ghost pre_map = allocations_per_node@;
            allocations_per_node.insert(node_id, 0);
            proof {
                assert(zeroed_node_counts(allocations_per_node@, config.nodes@, i + 1)) by {
                    assert forall|k: int|
                        0 <= k < i + 1 implies #[trigger] allocations_per_node@.contains_key(
                        config.nodes@[k].id,
                    ) && allocations_per_node@[config.nodes@[k].id] == 0 by {
                        if k < i {
                            assert(pre_map.contains_key(config.nodes@[k].id));
                            assert(pre_map[config.nodes@[k].id] == 0);
                        }
                    }
                }
            }
            node_stats.push(
                NodeStats {
                    node_id,
                    allocations: 0,
                    deallocations: 0,
                    bytes_allocated: 0,
                    bytes_freed: 0,
                    allocated_chunks: 0,
                    free_chunks: 0,
                    total_memory: 0,
                },
            );
            i = i + 1;
        }
        Ok(
            NumaAllocator {
                config,
                node_pools,
                current_node: 0,
                allocation_stats: NumaStats {
                    allocations_per_node,
                    cross_node_allocations: 0,
                    local_allocations: 0,
                    total_bytes_allocated: 0,
                    node_stats,
                },
                thread_node_cache: HashMap::new(),
                last_home: 0,
                in_use_bytes: 0,
                peak_in_use_bytes: 0,
            },
        )
    }

    /// The wrapping byte hash the steering fallback uses over a thread's
    /// formatted identifier: `h * 31 + byte` at each step, modulo 2^64.
    pub open spec fn spec_hash_bytes(s: Seq<u8>) -> int
        decreases s.len(),
    {
        if s.len() == 0 {
            0
        } else {
            (Self::spec_hash_bytes(s.drop_last()) * 31 + s.last()) % 0x1_0000_0000_0000_0000
        }
    }

    /// Hashes a thread's identifier bytes with a wrapping polynomial
    /// hash.
    pub fn hash_thread_id(&self, id_bytes: &Vec<u8>) -> (r: u64)
        ensures
            r == Self::spec_hash_bytes(id_bytes@),
    {
        let n = id_bytes.len();
        let mut hash: u64 = 0;
        let mut i: usize = 0;
        proof {
            assert(id_bytes@.subrange(0, 0) =~= Seq::<u8>::empty());
        }
        while i < n
            invariant
                n == id_bytes@.len(),
                i <= n,
                hash == Self::spec_hash_bytes(id_bytes@.subrange(0, i as int)),
            decreases n - i,
        {
            let b = id_bytes[i];
            proof {
                assert(id_bytes@.subrange(0, i + 1 as int).drop_last() =~= id_bytes@.subrange(
                    0,
                    i as int,
                ));
                assert(id_bytes@.subrange(0, i + 1 as int).last() == id_bytes@[i as int]);
            }
            let wide: u128 = (hash as u128) * 31 + (b as u128);
            proof {
                assert((hash as u128) * 31 + (b as u128) == (hash as int) * 31 + b)
                    by (nonlinear_arith);
                vstd::arithmetic::div_mod::lemma_mod_bound(
                    (hash as int) * 31 + b,
                    0x1_0000_0000_0000_0000,
                );
            }
            hash = (wide % 0x1_0000_0000_0000_0000u128) as u64;
            i = i + 1;
        }
        proof {
            assert(id_bytes@.subrange(0, n as int) =~= id_bytes@);
        }
        hash
    }

    /// Steers the calling thread to a node: by the first CPU of its
    /// affinity mask when one is known to the topology, else by its
    /// cached assignment, else by hashing its key into the nodes — and
    /// caches that fallback for stability.  The result becomes the home
    /// node that local preference uses.
    pub fn get_current_numa_node(&mut self, thread_key: u64, affinity_cpu: Option<usize>) -> (r:
        usize)
        requires
            old(self).wf(),
        ensures
            final(self).wf(),
            r < final(self).node_pools@.len(),
            final(self).last_home == r,
            final(self).config == old(self).config,
            final(self).node_pools == old(self).node_pools,
            final(self).allocation_stats == old(self).allocation_stats,
            final(self).current_node == old(self).current_node,
            final(self).in_use_bytes == old(self).in_use_bytes,
            final(self).peak_in_use_bytes == old(self).peak_in_use_bytes,
            ({
                let nodes = old(self).config.nodes@;
                let c = (match affinity_cpu {
                    Some(cpu) => spec_node_for_cpu(nodes, cpu),
                    None => nodes.len() as int,
                });
                if c < nodes.len() {
                    r == c && final(self).thread_node_cache == old(self).thread_node_cache
                } else if old(self).thread_node_cache@.contains_key(thread_key) {
                    r == old(self).thread_node_cache@[thread_key] && final(self).thread_node_cache
                        == old(self).thread_node_cache
                } else {
                    r == thread_key as int % old(self).node_pools@.len() as int && final(self).thread_node_cache@ == old(self).thread_node_cache@.insert(thread_key, r)
                }
            }),
    {
        if let Some(cpu) = affinity_cpu {
            let n = self.config.nodes.len();
            let mut i: usize = 0;
            while i < n
                invariant
                    *self == *old(self),
                    old(self).wf(),
                    affinity_cpu == Some(cpu),
                    n == self.config.nodes@.len(),
                    i <= n,
                    forall|j: int|
                        0 <= j < i ==> !(#[trigger] self.config.nodes@[j]).cpu_mask@.contains(cpu),
                decreases n - i,
            {
                if contains_cpu(&self.config.nodes[i].cpu_mask, cpu) {
                    proof {
                        lemma_node_for_cpu_at(old(self).config.nodes@, cpu, i as int);
                        assert(spec_node_for_cpu(old(self).config.nodes@, cpu) == i as int);
                    }
                    self.last_home = i;
                    return i;
                }
                i = i + 1;
            }
            proof {
                lemma_node_for_cpu_at(old(self).config.nodes@, cpu, n as int);
            }
        }

        match self.thread_node_cache.get(&thread_key) {
            Some(cached) => {
                let node = *cached;
                self.last_home = node;
                return node;
            },
            None => {},
        }

        let count = self.node_pools.len();
        let node = (thread_key % (count as u64)) as usize;
        proof {
            vstd::arithmetic::div_mod::lemma_mod_bound(thread_key as int, count as int);
        }
        self.thread_node_cache.insert(thread_key, node);
        self.last_home = node;
        node
    }

    /// Picks the node an allocation will try first: round-robin when
    /// interleaving, the caller's home node under local preference, node
    /// zero otherwise.
    fn select_allocation_node(&mut self) -> (r: usize)
        requires
            old(self).wf(),
        ensures
            final(self).wf(),
            r < final(self).node_pools@.len(),
            final(self).config == old(self).config,
            final(self).node_pools == old(self).node_pools,
            final(self).allocation_stats == old(self).allocation_stats,
            final(self).thread_node_cache == old(self).thread_node_cache,
            final(self).last_home == old(self).last_home,
            final(self).in_use_bytes == old(self).in_use_bytes,
            final(self).peak_in_use_bytes == old(self).peak_in_use_bytes,
            old(self).config.interleave ==> r == old(self).current_node && final(self).current_node == (old(self).current_node + 1) % old(self).node_pools@.len() as int,
            !old(self).config.interleave ==> final(self).current_node == old(self).current_node,
            !old(self).config.interleave && old(self).config.local_alloc_preference ==> r == old(self).last_home,
            !old(self).config.interleave && !old(self).config.local_alloc_preference ==> r == 0,
    {
        if self.config.interleave {
            let node = self.current_node;
            let count = self.node_pools.len();
            self.current_node = if node + 1 >= count {
                0
            } else {
                node + 1
            };
            proof {
                if node + 1 >= count {
                    assert((node + 1) % (count as int) == 0) by {
                        assert(node + 1 == count);
                        vstd::arithmetic::div_mod::lemma_mod_self_0(count as int);
                    }
                } else {
                    vstd::arithmetic::div_mod::lemma_small_mod((node + 1) as nat, count as nat);
                }
            }
            node
        } else if self.config.local_alloc_preference {
            self.last_home
        } else {
            0
        }
    }

    /// Tries one node's pool.  Succeeds exactly when that pool has a free
    /// chunk or room to grow — the pool's room does not depend on the
    /// request size, so any size witnesses `can_allocate` — and the
    /// returned chunk carries the node as its origin.  No other pool is
    /// touched.
    fn try_allocate_from_node(&mut self, node_id: usize) -> (r: Result<MemoryChunk, AllocError>)
        requires
            old(self).wf(),
            node_id < old(self).node_pools@.len(),
        ensures
            final(self).wf(),
            final(self).config == old(self).config,
            final(self).node_pools@.len() == old(self).node_pools@.len(),
            final(self).allocation_stats == old(self).allocation_stats,
            final(self).thread_node_cache == old(self).thread_node_cache,
            final(self).current_node == old(self).current_node,
            final(self).last_home == old(self).last_home,
            final(self).in_use_bytes == old(self).in_use_bytes,
            final(self).peak_in_use_bytes == old(self).peak_in_use_bytes,
            forall|j: int|
                0 <= j < old(self).node_pools@.len() && j != node_id ==> final(self).node_pools@[j]
                    == old(self).node_pools@[j],
            old(self).node_pools@[node_id as int].can_allocate(0) ==> {
                &&& r matches Ok(c)
                &&& c.data@.len() == old(self).config.pool_config.chunk_size
                &&& c.origin == node_id
                &&& final(self).node_pools@[node_id as int].allocated_count == old(self).node_pools@[node_id as int].allocated_count + 1
            },
            !old(self).node_pools@[node_id as int].can_allocate(0) ==> {
                &&& r matches Err(AllocError::PoolExhausted)
                &&& pool_core_unchanged(
                    old(self).node_pools@[node_id as int],
                    final(self).node_pools@[node_id as int],
                )
            },
    {
        let mut pool = self.node_pools.remove(node_id);
        let attempt = pool.allocate_chunk();
        self.node_pools.insert(node_id, pool);
        proof {
            assert(self.node_pools@ =~= old(self).node_pools@.update(
                node_id as int,
                self.node_pools@[node_id as int],
            ));
        }
        match attempt {
            Ok(chunk) => {
                let MemoryChunk { data, generation, origin: _ } = chunk;
                Ok(MemoryChunk { data, generation, origin: node_id })
            },
            Err(e) => Err(e),
        }
    }

    /// Attributes one served request to a node: bumps its per-node count,
    /// adds the requested bytes, and classifies the service as local or
    /// cross-node.
    fn update_stats(&mut self, node_id: usize, size: usize, is_local: bool)
        ensures
            final(self).config == old(self).config,
            final(self).node_pools == old(self).node_pools,
            final(self).thread_node_cache == old(self).thread_node_cache,
            final(self).current_node == old(self).current_node,
            final(self).last_home == old(self).last_home,
            final(self).in_use_bytes == old(self).in_use_bytes,
            final(self).peak_in_use_bytes == old(self).peak_in_use_bytes,
            final(self).allocation_stats.total_bytes_allocated == sat_add_usize(
                old(self).allocation_stats.total_bytes_allocated,
                size,
            ),
            is_local ==> final(self).allocation_stats.local_allocations == sat_add_usize(
                old(self).allocation_stats.local_allocations,
                1,
            ) && final(self).allocation_stats.cross_node_allocations == old(self).allocation_stats.cross_node_allocations,
            !is_local ==> final(self).allocation_stats.cross_node_allocations == sat_add_usize(
                old(self).allocation_stats.cross_node_allocations,
                1,
            ) && final(self).allocation_stats.local_allocations == old(self).allocation_stats.local_allocations,
            final(self).allocation_stats.allocations_per_node@
                == old(self).allocation_stats.allocations_per_node@.insert(
                node_id,
                sat_add_usize(
                    (if old(self).allocation_stats.allocations_per_node@.contains_key(node_id) {
                        old(self).allocation_stats.allocations_per_node@[node_id]
                    } else {
                        0usize
                    }),
                    1,
                ),
            ),
            final(self).allocation_stats.node_stats == old(self).allocation_stats.node_stats,
    {
        let prev: usize = match self.allocation_stats.allocations_per_node.get(&node_id) {
            Some(v) => *v,
            None => 0,
        };
        self.allocation_stats.allocations_per_node.insert(node_id, add_sat_usize(prev, 1));
        self.allocation_stats.total_bytes_allocated = add_sat_usize(
            self.allocation_stats.total_bytes_allocated,
            size,
        );
        if is_local {
            self.allocation_stats.local_allocations = add_sat_usize(
                self.allocation_stats.local_allocations,
                1,
            );
        } else {
            self.allocation_stats.cross_node_allocations = add_sat_usize(
                self.allocation_stats.cross_node_allocations,
                1,
            );
        }
    }

    /// Pins an allocation to one node; an index outside the topology
    /// fails with `NumaNodeUnavailable`.
    pub fn allocate_on_node(&mut self, node_id: usize, size: usize, align: usize) -> (r: Result<
        MemoryChunk,
        AllocError,
    >)
        requires
            old(self).wf(),
        ensures
            final(self).wf(),
            final(self).config == old(self).config,
            node_id >= old(self).node_pools@.len() ==> (r matches Err(
                AllocError::NumaNodeUnavailable(id),
            ) && id == node_id && *final(self) == *old(self)),
            node_id < old(self).node_pools@.len() && size
                > old(self).config.pool_config.chunk_size ==> (r matches Err(
                AllocError::SizeExceeded { size: s, max },
            ) && s == size && max == old(self).config.pool_config.chunk_size),
            node_id < old(self).node_pools@.len() && size
                <= old(self).config.pool_config.chunk_size && !(spec_power_of_two(align) && align
                <= old(self).config.pool_config.alignment) ==> (r matches Err(
                AllocError::AlignmentNotSupported { required, supported },
            ) && required == align && supported == old(self).config.pool_config.alignment),
            node_id < old(self).node_pools@.len() && size
                <= old(self).config.pool_config.chunk_size && spec_power_of_two(align) && align
                <= old(self).config.pool_config.alignment && !old(self).node_pools@[node_id as int].can_allocate(
                0,
            ) ==> r matches Err(AllocError::PoolExhausted),
            final(self).current_node == old(self).current_node,
            final(self).last_home == old(self).last_home,
            final(self).thread_node_cache == old(self).thread_node_cache,
            final(self).allocation_stats.node_stats == old(self).allocation_stats.node_stats,
            final(self).node_pools@.len() == old(self).node_pools@.len(),
            r is Err ==> {
                &&& final(self).allocation_stats == old(self).allocation_stats
                &&& final(self).in_use_bytes == old(self).in_use_bytes
                &&& final(self).peak_in_use_bytes == old(self).peak_in_use_bytes
                &&& forall|j: int|
                    0 <= j < old(self).node_pools@.len() ==> pool_core_unchanged(
                        old(self).node_pools@[j],
                        #[trigger] final(self).node_pools@[j],
                    )
            },
            node_id < old(self).node_pools@.len() && size
                <= old(self).config.pool_config.chunk_size && spec_power_of_two(align) && align
                <= old(self).config.pool_config.alignment && old(self).node_pools@[node_id as int].can_allocate(
                0,
            ) ==> (r matches Ok(c) && {
                &&& c.origin == node_id
                &&& c.data@.len() == old(self).config.pool_config.chunk_size
                &&& final(self).node_pools@[node_id as int].allocated_count == old(self).node_pools@[node_id as int].allocated_count
                    + 1
                &&& forall|j: int|
                    0 <= j < old(self).node_pools@.len() && j != node_id ==> final(self).node_pools@[j]
                        == old(self).node_pools@[j]
                &&& final(self).in_use_bytes == sat_add_usize(
                    old(self).in_use_bytes,
                    old(self).config.pool_config.chunk_size,
                )
                &&& final(self).allocation_stats.total_bytes_allocated == sat_add_usize(
                    old(self).allocation_stats.total_bytes_allocated,
                    size,
                )
                &&& final(self).allocation_stats.allocations_per_node@ == old(self).allocation_stats.allocations_per_node@.insert(
                    node_id,
                    sat_add_usize(
                        (if old(self).allocation_stats.allocations_per_node@.contains_key(
                            node_id,
                        ) {
                            old(self).allocation_stats.allocations_per_node@[node_id]
                        } else {
                            0usize
                        }),
                        1,
                    ),
                )
                &&& (node_id == old(self).last_home ==> final(self).allocation_stats.local_allocations
                    == sat_add_usize(old(self).allocation_stats.local_allocations, 1) && final(self).allocation_stats.cross_node_allocations
                    == old(self).allocation_stats.cross_node_allocations)
                &&& (node_id != old(self).last_home ==> final(self).allocation_stats.cross_node_allocations
                    == sat_add_usize(old(self).allocation_stats.cross_node_allocations, 1)
                    && final(self).allocation_stats.local_allocations == old(self).allocation_stats.local_allocations)
            }),
    {
        if node_id >= self.node_pools.len() {
            return Err(AllocError::NumaNodeUnavailable(node_id));
        }
        if size > self.config.pool_config.chunk_size {
            return Err(
                AllocError::SizeExceeded { size, max: self.config.pool_config.chunk_size },
            );
        }
        if !power_of_two(align) || align > self.config.pool_config.alignment {
            return Err(
                AllocError::AlignmentNotSupported {
                    required: align,
                    supported: self.config.pool_config.alignment,
                },
            );
        }
        let is_local = node_id == self.last_home;
        match self.try_allocate_from_node(node_id) {
            Ok(c) => {
                self.update_stats(node_id, size, is_local);
                self.in_use_bytes = add_sat_usize(
                    self.in_use_bytes,
                    self.config.pool_config.chunk_size,
                );
                if self.in_use_bytes > self.peak_in_use_bytes {
                    self.peak_in_use_bytes = self.in_use_bytes;
                }
                Ok(c)
            },
            Err(e) => Err(e),
        }
    }

    /// The abstract access cost from one node to another, when both are
    /// known.
    pub fn get_node_distance(&self, from: usize, to: usize) -> (r: Option<u8>)
        ensures
            from < self.config.nodes@.len() && self.config.nodes@[from as int].distance_map@.contains_key(
                to,
            ) ==> r == Some(self.config.nodes@[from as int].distance_map@[to]),
            from < self.config.nodes@.len() && !self.config.nodes@[from as int].distance_map@.contains_key(
                to,
            ) ==> r is None,
            from >= self.config.nodes@.len() ==> r is None,
    {
        if from >= self.config.nodes.len() {
            return None;
        }
        match self.config.nodes[from].distance_map.get(&to) {
            Some(d) => Some(*d),
            None => None,
        }
    }

    /// A borrowed view of the allocator's accounting.
    pub fn with_stats(&self) -> (r: &NumaStats)
        ensures
            *r == self.allocation_stats,
    {
        &self.allocation_stats
    }

    /// A compact snapshot: the accounting totals plus one row per node
    /// with the node's pool counters.
    pub fn get_stats_snapshot(&self) -> (r: NumaStatsSnapshot)
        requires
            self.wf(),
        ensures
            r.cross_node_allocations == self.allocation_stats.cross_node_allocations,
            r.local_allocations == self.allocation_stats.local_allocations,
            r.total_bytes_allocated == self.allocation_stats.total_bytes_allocated,
            r.node_summaries@.len() == self.node_pools@.len(),
            forall|i: int|
                0 <= i < self.node_pools@.len() ==> #[trigger] r.node_summaries@[i] == (
                    i as usize,
                    self.node_pools@[i].allocated_count,
                    self.node_pools@[i].free_count,
                    self.node_pools@[i].total_memory,
                ),
    {
        let n = self.node_pools.len();
        let mut node_summaries: Vec<(usize, usize, usize, usize)> = Vec::new();
        let mut i: usize = 0;
        while i < n
            invariant
                n == self.node_pools@.len(),
                i <= n,
                node_summaries@.len() == i,
                forall|k: int|
                    0 <= k < i ==> #[trigger] node_summaries@[k] == (
                        k as usize,
                        self.node_pools@[k].allocated_count,
                        self.node_pools@[k].free_count,
                        self.node_pools@[k].total_memory,
                    ),
            decreases n - i,
        {
            let pool = &self.node_pools[i];
            let stats = pool.get_stats();
            node_summaries.push(
                (i, stats.allocated_chunks, stats.free_chunks, stats.total_memory_bytes),
            );
            i = i + 1;
        }
        NumaStatsSnapshot {
            cross_node_allocations: self.allocation_stats.cross_node_allocations,
            local_allocations: self.allocation_stats.local_allocations,
            total_bytes_allocated: self.allocation_stats.total_bytes_allocated,
            node_summaries,
        }
    }
}

impl NumaAllocator {
    /// The node the policy tries first: the interleave counter's current
    /// value, the caller's home node under local preference, node zero
    /// otherwise.
    pub open spec fn spec_preferred(&self) -> usize {
        if self.config.interleave {
            self.current_node
        } else if self.config.local_alloc_preference {
            self.last_home
        } else {
            0
        }
    }

    /// Free bytes over the first `c` node pools.
    pub open spec fn spec_sum_available(&self, c: int) -> usize
        decreases c,
    {
        if c <= 0 {
            0usize
        } else {
            sat_add_usize(
                self.spec_sum_available(c - 1),
                sat_mul_usize(
                    self.node_pools@[c - 1].free_count,
                    self.node_pools@[c - 1].config.chunk_size,
                ),
            )
        }
    }

    /// Total owned bytes over the first `c` node pools.
    pub open spec fn spec_sum_total(&self, c: int) -> usize
        decreases c,
    {
        if c <= 0 {
            0usize
        } else {
            sat_add_usize(self.spec_sum_total(c - 1), self.node_pools@[c - 1].total_memory)
        }
    }
}

impl MemoryAllocator for NumaAllocator {
    open spec fn inv(&self) -> bool {
        self.wf()
    }

    open spec fn max_size(&self) -> usize {
        self.config.pool_config.chunk_size
    }

    open spec fn max_align(&self) -> usize {
        self.config.pool_config.alignment
    }

    open spec fn charge(&self, size: usize) -> usize {
        self.config.pool_config.chunk_size
    }

    open spec fn live_bytes(&self) -> usize {
        self.in_use_bytes
    }

    open spec fn peak_bytes(&self) -> usize {
        self.peak_in_use_bytes
    }

    open spec fn can_allocate(&self, size: usize) -> bool {
        exists|j: int|
            0 <= j < self.node_pools@.len() && (#[trigger] self.node_pools@[j]).can_allocate(size)
    }

    open spec fn fits(&self, chunk: MemoryChunk, size: usize) -> bool {
        chunk.origin < self.node_pools@.len() && chunk.data@.len()
            == self.config.pool_config.chunk_size
            && self.node_pools@[chunk.origin as int].allocated_count >= 1
    }

    open spec fn available(&self) -> usize {
        self.spec_sum_available(self.node_pools@.len() as int)
    }

    open spec fn total(&self) -> usize {
        self.spec_sum_total(self.node_pools@.len() as int)
    }

    proof fn lemma_fits_shape(&self, c1: MemoryChunk, c2: MemoryChunk, size: usize) {
    }

    /// Beyond the uniform contract: the policy-selected node is tried
    /// first and serves whenever it has room; the interleave counter
    /// advances exactly on checked requests; a served request is
    /// attributed to its node and classified local or cross-node; and a
    /// request every node refuses fails with `OutOfMemory`.
    fn allocate(&mut self, size: usize, align: usize) -> (r: Result<MemoryChunk, AllocError>)
        ensures
            final(self).last_home == old(self).last_home,
            final(self).thread_node_cache == old(self).thread_node_cache,
            final(self).allocation_stats.node_stats == old(self).allocation_stats.node_stats,
            !old(self).config.interleave ==> final(self).current_node == old(self).current_node,
            (old(self).config.interleave && size <= old(self).config.pool_config.chunk_size
                && spec_power_of_two(align) && align <= old(self).config.pool_config.alignment)
                ==> final(self).current_node == (old(self).current_node + 1) % (old(self).node_pools@.len() as int),
            (size <= old(self).config.pool_config.chunk_size && spec_power_of_two(align) && align
                <= old(self).config.pool_config.alignment && old(self).node_pools@[old(self).spec_preferred() as int].can_allocate(size)) ==> (r matches Ok(c) && c.origin == old(self).spec_preferred()),
            (size <= old(self).config.pool_config.chunk_size && spec_power_of_two(align) && align
                <= old(self).config.pool_config.alignment && !old(self).can_allocate(size))
                ==> r matches Err(AllocError::OutOfMemory),
            r is Err ==> {
                &&& final(self).allocation_stats == old(self).allocation_stats
                &&& final(self).node_pools@.len() == old(self).node_pools@.len()
                &&& forall|j: int|
                    0 <= j < old(self).node_pools@.len() ==> pool_core_unchanged(
                        old(self).node_pools@[j],
                        #[trigger] final(self).node_pools@[j],
                    )
            },
            r matches Ok(c) ==> {
                &&& c.origin < old(self).node_pools@.len()
                &&& final(self).node_pools@.len() == old(self).node_pools@.len()
                &&& final(self).node_pools@[c.origin as int].allocated_count == old(self).node_pools@[c.origin as int].allocated_count + 1
                &&& forall|j: int|
                    0 <= j < old(self).node_pools@.len() && j != c.origin ==> pool_core_unchanged(
                        old(self).node_pools@[j],
                        #[trigger] final(self).node_pools@[j],
                    )
                &&& final(self).allocation_stats.total_bytes_allocated == sat_add_usize(
                    old(self).allocation_stats.total_bytes_allocated,
                    size,
                )
                &&& final(self).allocation_stats.allocations_per_node@ == old(self).allocation_stats.allocations_per_node@.insert(
                    c.origin,
                    sat_add_usize(
                        (if old(self).allocation_stats.allocations_per_node@.contains_key(
                            c.origin,
                        ) {
                            old(self).allocation_stats.allocations_per_node@[c.origin]
                        } else {
                            0usize
                        }),
                        1,
                    ),
                )
                &&& (c.origin == old(self).spec_preferred() ==> final(self).allocation_stats.local_allocations == sat_add_usize(
                    old(self).allocation_stats.local_allocations,
                    1,
                ) && final(self).allocation_stats.cross_node_allocations == old(self).allocation_stats.cross_node_allocations)
                &&& (c.origin != old(self).spec_preferred() ==> final(self).allocation_stats.cross_node_allocations == sat_add_usize(
                    old(self).allocation_stats.cross_node_allocations,
                    1,
                ) && final(self).allocation_stats.local_allocations == old(self).allocation_stats.local_allocations)
            },
    {
        if size > self.config.pool_config.chunk_size {
            return Err(
                AllocError::SizeExceeded { size, max: self.config.pool_config.chunk_size },
            );
        }
        if !power_of_two(align) || align > self.config.pool_config.alignment {
            return Err(
                AllocError::AlignmentNotSupported {
                    required: align,
                    supported: self.config.pool_config.alignment,
                },
            );
        }

        let preferred = self.select_allocation_node();
        proof {
            assert(preferred == old(self).spec_preferred());
        }
        let ghost pre = *self;
        match self.try_allocate_from_node(preferred) {
            Ok(c) => {
                proof {
                    assert(pre.node_pools@[preferred as int].can_allocate(size));
                    assert(pre.node_pools == old(self).node_pools);
                }
                self.update_stats(preferred, size, true);
                self.in_use_bytes = add_sat_usize(
                    self.in_use_bytes,
                    self.config.pool_config.chunk_size,
                );
                if self.in_use_bytes > self.peak_in_use_bytes {
                    self.peak_in_use_bytes = self.in_use_bytes;
                }
                return Ok(c);
            },
            Err(_) => {},
        }

        let n = self.node_pools.len();
        let mut k: usize = 0;
        while k < n
            invariant
                self.wf(),
                self.config == old(self).config,
                n == self.node_pools@.len(),
                old(self).node_pools@.len() == n,
                preferred < n,
                k <= n,
                size <= self.config.pool_config.chunk_size,
                spec_power_of_two(align) && align <= self.config.pool_config.alignment,
                self.in_use_bytes == old(self).in_use_bytes,
                self.peak_in_use_bytes == old(self).peak_in_use_bytes,
                self.allocation_stats == old(self).allocation_stats,
                self.thread_node_cache == old(self).thread_node_cache,
                self.last_home == old(self).last_home,
                old(self).config.interleave ==> self.current_node == (old(self).current_node + 1)
                    % (old(self).node_pools@.len() as int),
                !old(self).config.interleave ==> self.current_node == old(self).current_node,
                preferred == old(self).spec_preferred(),
                forall|j: int|
                    0 <= j < n ==> pool_core_unchanged(
                        old(self).node_pools@[j],
                        #[trigger] self.node_pools@[j],
                    ),
                !old(self).node_pools@[preferred as int].can_allocate(size),
                forall|j: int|
                    0 <= j < k && j != preferred ==> !(#[trigger] old(self).node_pools@[j]).can_allocate(
                        size,
                    ),
            decreases n - k,
        {
            if k != preferred {
                let ghost before = *self;
                match self.try_allocate_from_node(k) {
                    Ok(c) => {
                        proof {
                            assert(before.node_pools@[k as int].can_allocate(size));
                            assert(old(self).node_pools@[k as int].can_allocate(size));
                        }
                        self.update_stats(k, size, false);
                        self.in_use_bytes = add_sat_usize(
                            self.in_use_bytes,
                            self.config.pool_config.chunk_size,
                        );
                        if self.in_use_bytes > self.peak_in_use_bytes {
                            self.peak_in_use_bytes = self.in_use_bytes;
                        }
                        return Ok(c);
                    },
                    Err(_) => {},
                }
            }
            k = k + 1;
        }
        Err(AllocError::OutOfMemory)
    }

    /// Beyond the uniform contract: a region is returned to the free
    /// list of the node it was allocated from — its origin — and no other
    /// node's pool is touched.
    fn deallocate(&mut self, chunk: MemoryChunk, size: usize, align: usize)
        ensures
            final(self).current_node == old(self).current_node,
            final(self).last_home == old(self).last_home,
            final(self).thread_node_cache == old(self).thread_node_cache,
            final(self).allocation_stats == old(self).allocation_stats,
            final(self).node_pools@.len() == old(self).node_pools@.len(),
            old(self).fits(chunk, size) ==> {
                &&& chunk_queue_view(final(self).node_pools@[chunk.origin as int].free_chunks)
                    == chunk_queue_view(
                    old(self).node_pools@[chunk.origin as int].free_chunks,
                ).push(
                    (
                        if old(self).node_pools@[chunk.origin as int].config.zero_on_dealloc {
                            crate::allocator::zero_seq(
                                old(self).config.pool_config.chunk_size as nat,
                            )
                        } else {
                            chunk.data@
                        },
                        old(self).node_pools@[chunk.origin as int].generation,
                    ),
                )
                &&& final(self).node_pools@[chunk.origin as int].allocated_count == old(self).node_pools@[chunk.origin as int].allocated_count - 1
                &&& final(self).node_pools@[chunk.origin as int].free_count == old(self).node_pools@[chunk.origin as int].free_count + 1
                &&& forall|j: int|
                    0 <= j < old(self).node_pools@.len() && j != chunk.origin ==> final(self).node_pools@[j] == old(self).node_pools@[j]
            },
            !old(self).fits(chunk, size) ==> final(self).node_pools@ == old(self).node_pools@,
    {
        if chunk.origin < self.node_pools.len() && chunk.data.len()
            == self.config.pool_config.chunk_size {
            let origin = chunk.origin;
            let mut pool = self.node_pools.remove(origin);
            if pool.allocated_count >= 1 {
                pool.deallocate_chunk(chunk);
                self.node_pools.insert(origin, pool);
                proof {
                    assert(self.node_pools@ =~= old(self).node_pools@.update(
                        origin as int,
                        self.node_pools@[origin as int],
                    ));
                }
                self.in_use_bytes = sub_clamped_usize(
                    self.in_use_bytes,
                    self.config.pool_config.chunk_size,
                );
                proof {
                    assert(chunk_queue_view(self.node_pools@[origin as int].free_chunks).len()
                        > 0);
                    assert(self.node_pools@[origin as int].can_allocate(size));
                }
            } else {
                self.node_pools.insert(origin, pool);
                proof {
                    assert(self.node_pools@ =~= old(self).node_pools@);
                }
            }
        }
    }

    fn max_alignment(&self) -> (r: usize) {
        self.config.pool_config.alignment
    }

    fn available_memory(&self) -> (r: usize) {
        let n = self.node_pools.len();
        let mut acc: usize = 0;
        let mut c: usize = 0;
        while c < n
            invariant
                n == self.node_pools@.len(),
                c <= n,
                acc == self.spec_sum_available(c as int),
            decreases n - c,
        {
            let pool = &self.node_pools[c];
            acc = add_sat_usize(acc, mul_sat_usize(pool.free_count, pool.config.chunk_size));
            c = c + 1;
        }
        acc
    }

    fn total_memory(&self) -> (r: usize) {
        let n = self.node_pools.len();
        let mut acc: usize = 0;
        let mut c: usize = 0;
        while c < n
            invariant
                n == self.node_pools@.len(),
                c <= n,
                acc == self.spec_sum_total(c as int),
            decreases n - c,
        {
            let pool = &self.node_pools[c];
            acc = add_sat_usize(acc, pool.total_memory);
            c = c + 1;
        }
        acc
    }
}

// ---------------------------------------------------------------------------
// Fairness of the interleave policy.
// ---------------------------------------------------------------------------

/// The node the `t`-th interleaved allocation picks, counting from a
/// round-robin counter reading of `c0` over `k` nodes.
pub open spec fn rr_pick(c0: int, t: int, k: int) -> int {
    (c0 + t) % k
}

/// How many of the first `n` interleaved picks land on node `d`.
pub open spec fn rr_count(c0: int, n: int, k: int, d: int) -> int
    decreases n,
{
    if n <= 0 {
        0
    } else {
        rr_count(c0, n - 1, k, d) + (if rr_pick(c0, n - 1, k) == d {
            1int
        } else {
            0
        })
    }
}

/// A pick lands on `d` exactly when its step is congruent to the first
/// step that does.
proof fn lemma_rr_hit_iff(c0: int, m: int, k: int, d: int)
    requires
        k >= 1,
        0 <= c0 < k,
        0 <= d < k,
        m >= 0,
    ensures
        (rr_pick(c0, m, k) == d) <==> (m % k == (d - c0) % k),
{
    let t0 = (d - c0) % k;
    vstd::arithmetic::div_mod::lemma_mod_bound(d - c0, k);
    vstd::arithmetic::div_mod::lemma_fundamental_div_mod(d - c0, k);
    let qa = (d - c0) / k;
    vstd::arithmetic::div_mod::lemma_fundamental_div_mod(m, k);
    let qm = m / k;
    let rm = m % k;
    vstd::arithmetic::div_mod::lemma_mod_bound(m, k);
    if rm == t0 {
        assert(c0 + m == (qm - qa) * k + d) by (nonlinear_arith)
            requires
                d - c0 == k * qa + t0,
                m == k * qm + rm,
                rm == t0,
        ;
        vstd::arithmetic::div_mod::lemma_fundamental_div_mod_converse(c0 + m, k, qm - qa, d);
    }
    if (c0 + m) % k == d {
        vstd::arithmetic::div_mod::lemma_fundamental_div_mod(c0 + m, k);
        let q = (c0 + m) / k;
        assert(m == (q + qa) * k + t0) by (nonlinear_arith)
            requires
                c0 + m == k * q + d,
                d - c0 == k * qa + t0,
        ;
        vstd::arithmetic::div_mod::lemma_fundamental_div_mod_converse(m, k, q + qa, t0);
    }
}

/// Closed form of `rr_count`: the picks landing on `d` are exactly
/// `t0, t0 + k, t0 + 2k, ...` where `t0` is the first one.
proof fn lemma_rr_count_closed(c0: int, n: int, k: int, d: int)
    requires
        k >= 1,
        0 <= c0 < k,
        0 <= d < k,
        n >= 0,
    ensures
        ({
            let t0 = (d - c0) % k;
            rr_count(c0, n, k, d) == (if t0 >= n {
                0int
            } else {
                (n - 1 - t0) / k + 1
            })
        }),
    decreases n,
{
    let t0 = (d - c0) % k;
    vstd::arithmetic::div_mod::lemma_mod_bound(d - c0, k);
    if n == 0 {
    } else {
        let m = n - 1;
        lemma_rr_count_closed(c0, m, k, d);
        lemma_rr_hit_iff(c0, m, k, d);
        if t0 > m {
            vstd::arithmetic::div_mod::lemma_small_mod(m as nat, k as nat);
            assert(rr_pick(c0, m, k) != d);
        } else if t0 == m {
            vstd::arithmetic::div_mod::lemma_small_mod(m as nat, k as nat);
            assert(rr_pick(c0, m, k) == d);
            assert((n - 1 - t0) / k == 0) by {
                vstd::arithmetic::div_mod::lemma_fundamental_div_mod_converse(0, k, 0, 0);
            }
        } else {
            let a = m - t0;
            vstd::arithmetic::div_mod::lemma_fundamental_div_mod(a, k);
            let q = a / k;
            let r = a % k;
            vstd::arithmetic::div_mod::lemma_mod_bound(a, k);
            vstd::arithmetic::div_mod::lemma_fundamental_div_mod(m, k);
            vstd::arithmetic::div_mod::lemma_mod_bound(m, k);
            if m % k == t0 {
                // a is a multiple of k: this step hits, and the quotient grew.
                assert(a == (m / k) * k) by (nonlinear_arith)
                    requires m == k * (m / k) + m % k, a == m - t0, m % k == t0,
                ;
                vstd::arithmetic::div_mod::lemma_fundamental_div_mod_converse(a, k, m / k, 0);
                assert(r == 0);
                assert(a - 1 == (q - 1) * k + (k - 1)) by (nonlinear_arith)
                    requires a == k * q + r, r == 0,
                ;
                vstd::arithmetic::div_mod::lemma_fundamental_div_mod_converse(
                    a - 1,
                    k,
                    q - 1,
                    k - 1,
                );
                assert(rr_count(c0, n, k, d) == (m - 1 - t0) / k + 1 + 1);
            } else {
                // a is not a multiple of k: this step misses, quotient unchanged.
                assert(r != 0) by {
                    if r == 0 {
                        assert(m == q * k + t0) by (nonlinear_arith)
                            requires a == k * q + r, r == 0, a == m - t0,
                        ;
                        vstd::arithmetic::div_mod::lemma_fundamental_div_mod_converse(
                            m,
                            k,
                            q,
                            t0,
                        );
                    }
                }
                assert(a - 1 == q * k + (r - 1)) by (nonlinear_arith)
                    requires a == k * q + r,
                ;
                vstd::arithmetic::div_mod::lemma_fundamental_div_mod_converse(a - 1, k, q, r - 1);
                assert(rr_pick(c0, m, k) != d);
            }
        }
    }
}

/// Fairness of round-robin interleaving: over `n` allocations spread over
/// `k` nodes from any counter start, every node receives at least
/// `floor(n / k)` and at most `ceil(n / k)` of them.
pub proof fn lemma_round_robin_fair(c0: int, n: int, k: int, d: int)
    requires
        k >= 1,
        0 <= c0 < k,
        0 <= d < k,
        n >= 0,
    ensures
        n / k <= rr_count(c0, n, k, d) <= (n + k - 1) / k,
{
    let t0 = (d - c0) % k;
    vstd::arithmetic::div_mod::lemma_mod_bound(d - c0, k);
    lemma_rr_count_closed(c0, n, k, d);
    if t0 >= n {
        // No pick has landed on d yet; n fits inside the first window.
        vstd::arithmetic::div_mod::lemma_basic_div_specific_divisor(k);
        assert(n / k == 0) by {
            vstd::arithmetic::div_mod::lemma_fundamental_div_mod_converse(n, k, 0, n);
        }
        vstd::arithmetic::div_mod::lemma_div_pos_is_pos(n + k - 1, k);
    } else {
        // lower bound: t0 <= k - 1, so (n - 1 - t0) / k + 1 >= n / k.
        vstd::arithmetic::div_mod::lemma_div_is_ordered(n - k, n - 1 - t0, k);
        assert((n - k) / k == n / k - 1) by {
            vstd::arithmetic::div_mod::lemma_fundamental_div_mod(n, k);
            assert(n - k == (n / k - 1) * k + n % k) by (nonlinear_arith)
                requires n == k * (n / k) + n % k,
            ;
            vstd::arithmetic::div_mod::lemma_mod_bound(n, k);
            vstd::arithmetic::div_mod::lemma_fundamental_div_mod_converse(
                n - k,
                k,
                n / k - 1,
                n % k,
            );
        }
        // upper bound: t0 >= 0, so (n - 1 - t0) / k + 1 <= (n - 1) / k + 1.
        vstd::arithmetic::div_mod::lemma_div_is_ordered(n - 1 - t0, n - 1, k);
        assert((n + k - 1) / k == (n - 1) / k + 1) by {
            vstd::arithmetic::div_mod::lemma_fundamental_div_mod(n - 1, k);
            assert(n + k - 1 == ((n - 1) / k + 1) * k + (n - 1) % k) by (nonlinear_arith)
                requires n - 1 == k * ((n - 1) / k) + (n - 1) % k,
            ;
            vstd::arithmetic::div_mod::lemma_mod_bound(n - 1, k);
            vstd::arithmetic::div_mod::lemma_fundamental_div_mod_converse(
                n + k - 1,
                k,
                (n - 1) / k + 1,
                (n - 1) % k,
            );
        }
    }
}

/// Whether a CPU list holds `cpu`, by linear scan.
fn contains_cpu(v: &Vec<usize>, cpu: usize) -> (r: bool)
    ensures
        r == v@.contains(cpu),
{
    let n = v.len();
    let mut i: usize = 0;
    while i < n
        invariant
            n == v@.len(),
            i <= n,
            forall|k: int| 0 <= k < i ==> v@[k] != cpu,
        decreases n - i,
    {
        if v[i] == cpu {
            return true;
        }
        i = i + 1;
    }
    false
}

} // verus!
