use shriven_q::allocator::{AllocError, MemoryAllocator};
use shriven_q::safe_pool::{SafeMemoryPool, SafePoolConfig};

fn small_pool(zero_on_dealloc: bool) -> SafeMemoryPool {
    SafeMemoryPool::new(SafePoolConfig {
        chunk_size: 4096,
        initial_chunks: 4,
        max_chunks: 4,
        zero_on_dealloc,
    })
    .unwrap()
}

#[test]
fn rejects_zero_chunk_size() {
    let r = SafeMemoryPool::new(SafePoolConfig {
        chunk_size: 0,
        initial_chunks: 1,
        max_chunks: 1,
        zero_on_dealloc: false,
    });
    assert!(matches!(r, Err(AllocError::InvalidLayout(_))));
}

#[test]
fn exhausts_at_cap_and_recovers_after_release() {
    let mut pool = small_pool(true);
    let mut held = Vec::new();
    for _ in 0..4 {
        held.push(pool.allocate_chunk().unwrap());
    }
    assert!(matches!(pool.allocate_chunk(), Err(AllocError::PoolExhausted)));

    let released = held.pop().unwrap();
    pool.deallocate_chunk(released);
    let again = pool.allocate_chunk().unwrap();
    held.push(again);
    assert_eq!(held.len(), 4);

    for handle in held {
        pool.deallocate_chunk(handle);
    }
    let stats = pool.get_stats();
    assert_eq!(stats.allocated_chunks, 0);
    assert_eq!(stats.free_chunks, 4);
}

#[test]
fn zero_on_dealloc_scrubs_recycled_chunks() {
    let mut pool = small_pool(true);
    let mut handle = pool.allocate_chunk().unwrap();
    handle.write_byte(0, 0xAB);
    assert_eq!(handle.read_byte(0), 0xAB);
    pool.deallocate_chunk(handle);

    // Drain the pool so the scrubbed chunk must come back around.
    let mut held = Vec::new();
    for _ in 0..4 {
        held.push(pool.allocate_chunk().unwrap());
    }
    for h in &held {
        assert_eq!(h.read_byte(0), 0);
    }
    for h in held {
        pool.deallocate_chunk(h);
    }
}

#[test]
fn tracks_live_bytes_through_matched_pairs() {
    let mut pool = small_pool(false);
    let start = pool.stats.allocated_bytes;
    let a = pool.allocate_chunk().unwrap();
    let b = pool.allocate_chunk().unwrap();
    assert_eq!(pool.stats.allocated_bytes, start + 2 * 4096);
    pool.deallocate_chunk(a);
    pool.deallocate_chunk(b);
    assert_eq!(pool.stats.allocated_bytes, start);
    assert!(pool.stats.peak_bytes >= 2 * 4096);
}

#[test]
fn uniform_contract_checks_size_and_alignment() {
    let mut pool = small_pool(false);
    match pool.allocate(5000, 64) {
        Err(AllocError::SizeExceeded { size, max }) => {
            assert_eq!(size, 5000);
            assert_eq!(max, 4096);
        },
        other => panic!("expected SizeExceeded, got {:?}", other.map(|c| c.data.len())),
    }
    match pool.allocate(64, 128) {
        Err(AllocError::AlignmentNotSupported { required, supported }) => {
            assert_eq!(required, 128);
            assert_eq!(supported, 64);
        },
        other => panic!("expected AlignmentNotSupported, got {:?}", other.map(|c| c.data.len())),
    }
    assert!(matches!(
        pool.allocate(64, 3),
        Err(AllocError::AlignmentNotSupported { .. })
    ));
    assert!(pool.supports_alignment(64));
    assert!(!pool.supports_alignment(128));
    assert_eq!(pool.max_alignment(), 64);
}

#[test]
fn safe_backend_refuses_reallocate() {
    let mut pool = small_pool(false);
    let mut chunk = pool.allocate(16, 8).unwrap();
    let r = pool.reallocate(&mut chunk, 16, 32, 8);
    assert!(matches!(r, Err(AllocError::UnsupportedOperation(_))));
    // The region is handed back untouched.
    assert_eq!(chunk.data.len(), 4096);
    pool.deallocate(chunk, 16, 8);
}

#[test]
fn allocate_zeroed_yields_zero_bytes() {
    let mut pool = small_pool(false);
    let mut chunk = pool.allocate(4096, 64).unwrap();
    for i in 0..chunk.data.len() {
        chunk.data[i] = 0xFF;
    }
    pool.deallocate(chunk, 4096, 64);

    let zeroed = pool.allocate_zeroed(4096, 64).unwrap();
    assert!(zeroed.data.iter().all(|b| *b == 0));
    pool.deallocate(zeroed, 4096, 64);
}

#[test]
fn gauges_report_free_and_total_memory() {
    let mut pool = small_pool(false);
    assert_eq!(pool.available_memory(), 4 * 4096);
    assert_eq!(pool.total_memory(), 4 * 4096);
    let chunk = pool.allocate(1, 1).unwrap();
    assert_eq!(pool.available_memory(), 3 * 4096);
    pool.deallocate(chunk, 1, 1);
}
