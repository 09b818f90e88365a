use shriven_q::allocator::{AllocError, MemoryAllocator};
use shriven_q::lock_free_pool::{LockFreeMemoryPool, PoolConfig};

fn pool_config(initial: usize, max: usize) -> PoolConfig {
    PoolConfig {
        chunk_size: 4096,
        initial_chunks: initial,
        max_chunks: max,
        alignment: 64,
        zero_on_dealloc: false,
        thread_cache_size: 32,
    }
}

#[test]
fn rejects_small_unaligned_chunk_size() {
    let mut config = pool_config(1, 1);
    config.chunk_size = 48;
    assert!(matches!(
        LockFreeMemoryPool::new(config),
        Err(AllocError::InvalidLayout(_))
    ));
}

#[test]
fn rejects_non_power_of_two_alignment() {
    let mut config = pool_config(1, 1);
    config.alignment = 48;
    assert!(matches!(
        LockFreeMemoryPool::new(config),
        Err(AllocError::InvalidLayout(_))
    ));
}

#[test]
fn oversized_request_fails_with_size_exceeded() {
    let mut pool = LockFreeMemoryPool::new(pool_config(1, 1)).unwrap();
    match pool.allocate(4097, 64) {
        Err(AllocError::SizeExceeded { size, max }) => {
            assert_eq!(size, 4097);
            assert_eq!(max, 4096);
        },
        _ => panic!("expected SizeExceeded"),
    }
}

#[test]
fn excessive_alignment_fails_on_any_backend() {
    let mut pool = LockFreeMemoryPool::new(pool_config(1, 1)).unwrap();
    match pool.allocate(64, 128) {
        Err(AllocError::AlignmentNotSupported { required, supported }) => {
            assert_eq!(required, 128);
            assert_eq!(supported, 64);
        },
        _ => panic!("expected AlignmentNotSupported"),
    }
}

#[test]
fn many_cycles_leave_no_live_bytes() {
    // Sixteen workers' worth of allocate/deallocate cycles, run to
    // completion: the gauge returns to zero and every chunk carries the
    // tag written into it.
    let mut pool = LockFreeMemoryPool::new(pool_config(8, 16)).unwrap();
    let cycles: u64 = 160_000;
    for i in 0..cycles {
        let mut chunk = pool.allocate(4096, 64).unwrap();
        let tag = (i % 251) as u8;
        chunk.data[0] = tag;
        chunk.data[4095] = tag;
        assert_eq!(chunk.data[0], tag);
        assert_eq!(chunk.data[4095], tag);
        pool.deallocate(chunk, 4096, 64);
    }
    let stats = pool.get_allocation_stats();
    assert_eq!(stats.allocated_bytes, 0);
    assert_eq!(stats.allocations, cycles);
    assert_eq!(stats.deallocations, cycles);
}

#[test]
fn generations_grow_over_reuses() {
    let mut pool = LockFreeMemoryPool::new(pool_config(1, 1)).unwrap();
    let first = pool.allocate_chunk().unwrap();
    let g1 = first.generation;
    pool.deallocate_chunk(first);
    let second = pool.allocate_chunk().unwrap();
    assert!(second.generation > g1);
    pool.deallocate_chunk(second);
}

#[test]
fn grows_up_to_cap_then_exhausts() {
    let mut pool = LockFreeMemoryPool::new(pool_config(1, 2)).unwrap();
    let a = pool.allocate_chunk().unwrap();
    let b = pool.allocate_chunk().unwrap();
    assert!(matches!(
        pool.allocate_chunk(),
        Err(AllocError::PoolExhausted)
    ));
    assert!(pool.get_allocation_stats().failed_allocations >= 1);
    pool.deallocate_chunk(a);
    pool.deallocate_chunk(b);
    let stats = pool.get_stats();
    assert_eq!(stats.free_chunks, 2);
    assert_eq!(stats.chunk_size, 4096);
}

#[test]
fn reallocate_preserves_the_common_prefix() {
    let mut pool = LockFreeMemoryPool::new(pool_config(2, 4)).unwrap();
    let mut chunk = pool.allocate(64, 64).unwrap();
    for i in 0..64 {
        chunk.data[i] = i as u8;
    }
    pool.reallocate(&mut chunk, 64, 128, 64).unwrap();
    assert!(chunk.data.len() >= 128);
    for i in 0..64 {
        assert_eq!(chunk.data[i], i as u8);
    }
    pool.deallocate(chunk, 128, 64);
}

#[test]
fn allocate_zeroed_scrubs_recycled_chunks() {
    let mut pool = LockFreeMemoryPool::new(pool_config(1, 1)).unwrap();
    let mut chunk = pool.allocate(4096, 64).unwrap();
    for i in 0..4096 {
        chunk.data[i] = 0x5A;
    }
    pool.deallocate(chunk, 4096, 64);
    let zeroed = pool.allocate_zeroed(4096, 64).unwrap();
    assert!(zeroed.data.iter().all(|b| *b == 0));
    pool.deallocate(zeroed, 4096, 64);
}
