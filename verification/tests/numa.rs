use shriven_q::allocator::{AllocError, MemoryAllocator};
use shriven_q::lock_free_pool::PoolConfig;
use shriven_q::numa_allocator::{NumaAllocator, NumaConfig, NumaNode};
use std::collections::HashMap;

fn synthetic_config(interleave: bool) -> NumaConfig {
    let mut config = NumaConfig::default();
    config.interleave = interleave;
    config
}

fn tiny_two_node_config() -> NumaConfig {
    // Two nodes whose pools hold at most two chunks each.
    let mut nodes = Vec::new();
    for i in 0..2usize {
        let mut distance_map = HashMap::new();
        distance_map.insert(0usize, if i == 0 { 10u8 } else { 20u8 });
        distance_map.insert(1usize, if i == 1 { 10u8 } else { 20u8 });
        nodes.push(NumaNode {
            id: i,
            cpu_mask: vec![i * 8, i * 8 + 1],
            memory_size: 2 * 4096,
            distance_map,
        });
    }
    NumaConfig {
        nodes,
        interleave: false,
        local_alloc_preference: false,
        migration_threshold: 1000,
        pool_config: PoolConfig {
            chunk_size: 4096,
            initial_chunks: 0,
            max_chunks: 2,
            alignment: 64,
            zero_on_dealloc: false,
            thread_cache_size: 32,
        },
    }
}

#[test]
fn rejects_an_empty_topology() {
    let mut config = NumaConfig::default();
    config.nodes = Vec::new();
    assert!(matches!(
        NumaAllocator::new(config),
        Err(AllocError::InvalidLayout(_))
    ));
}

#[test]
fn interleave_splits_allocations_evenly_across_two_nodes() {
    let mut numa = NumaAllocator::new(synthetic_config(true)).unwrap();
    let mut held = Vec::new();
    for _ in 0..1000 {
        held.push(numa.allocate(64, 64).unwrap());
    }
    let stats = numa.with_stats();
    assert_eq!(stats.allocations_per_node.get(&0).copied(), Some(500));
    assert_eq!(stats.allocations_per_node.get(&1).copied(), Some(500));
    assert_eq!(held.iter().filter(|c| c.origin == 0).count(), 500);
    assert_eq!(held.iter().filter(|c| c.origin == 1).count(), 500);

    let snapshot = numa.get_stats_snapshot();
    assert_eq!(snapshot.node_summaries.len(), 2);
    assert_eq!(snapshot.node_summaries[0].1, 500);
    assert_eq!(snapshot.node_summaries[1].1, 500);

    for chunk in held {
        numa.deallocate(chunk, 64, 64);
    }
    let snapshot = numa.get_stats_snapshot();
    assert_eq!(snapshot.node_summaries[0].1, 0);
    assert_eq!(snapshot.node_summaries[1].1, 0);
}

#[test]
fn falls_through_to_other_nodes_and_reports_out_of_memory() {
    let mut numa = NumaAllocator::new(tiny_two_node_config()).unwrap();
    let mut held = Vec::new();
    // Fixed-zero policy: node zero first, falling through to node one.
    for _ in 0..4 {
        held.push(numa.allocate(64, 64).unwrap());
    }
    assert!(matches!(numa.allocate(64, 64), Err(AllocError::OutOfMemory)));
    assert_eq!(held.iter().filter(|c| c.origin == 0).count(), 2);
    assert_eq!(held.iter().filter(|c| c.origin == 1).count(), 2);
    let stats = numa.with_stats();
    assert_eq!(stats.local_allocations, 2);
    assert_eq!(stats.cross_node_allocations, 2);
    for chunk in held {
        numa.deallocate(chunk, 64, 64);
    }
}

#[test]
fn allocate_on_node_pins_and_rejects_unknown_nodes() {
    let mut numa = NumaAllocator::new(synthetic_config(false)).unwrap();
    match numa.allocate_on_node(5, 64, 64) {
        Err(AllocError::NumaNodeUnavailable(id)) => assert_eq!(id, 5),
        _ => panic!("expected NumaNodeUnavailable"),
    }
    let chunk = numa.allocate_on_node(1, 64, 64).unwrap();
    assert_eq!(chunk.origin, 1);
    numa.deallocate(chunk, 64, 64);
}

#[test]
fn node_distances_come_from_the_topology() {
    let numa = NumaAllocator::new(synthetic_config(false)).unwrap();
    assert_eq!(numa.get_node_distance(0, 0), Some(10));
    assert_eq!(numa.get_node_distance(0, 1), Some(20));
    assert_eq!(numa.get_node_distance(1, 1), Some(10));
    assert_eq!(numa.get_node_distance(7, 0), None);
    // An unknown target node is absent from the map.
    assert_eq!(numa.get_node_distance(0, 7), None);
}

#[test]
fn steering_prefers_affinity_then_cache_then_hash() {
    let mut numa = NumaAllocator::new(synthetic_config(false)).unwrap();
    // CPU 9 is homed on the second synthetic node.
    assert_eq!(numa.get_current_numa_node(99, Some(9)), 1);
    // An unknown CPU falls back to hashing the thread key.
    assert_eq!(numa.get_current_numa_node(7, Some(1000)), 1);
    // The fallback is cached: the same key keeps its node.
    assert_eq!(numa.get_current_numa_node(7, None), 1);
    assert_eq!(numa.get_current_numa_node(8, None), 0);
    // Local preference serves from the home node just steered to.
    let chunk = numa.allocate(64, 64).unwrap();
    assert_eq!(chunk.origin, 0);
    assert_eq!(numa.with_stats().local_allocations, 1);
    numa.deallocate(chunk, 64, 64);
}

#[test]
fn thread_hash_is_the_wrapping_polynomial() {
    let numa = NumaAllocator::new(synthetic_config(false)).unwrap();
    assert_eq!(numa.hash_thread_id(&vec![]), 0);
    assert_eq!(numa.hash_thread_id(&vec![1, 2]), 33);
    assert_eq!(numa.hash_thread_id(&vec![3, 1, 4]), 2918);
}

#[test]
fn size_and_alignment_are_checked_before_any_node() {
    let mut numa = NumaAllocator::new(synthetic_config(false)).unwrap();
    assert!(matches!(
        numa.allocate(4097, 64),
        Err(AllocError::SizeExceeded { size: 4097, max: 4096 })
    ));
    assert!(matches!(
        numa.allocate(64, 128),
        Err(AllocError::AlignmentNotSupported { required: 128, supported: 64 })
    ));
}
