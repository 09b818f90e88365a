use shriven_q::allocator::{AllocError, MemoryAllocator};
use shriven_q::slab_allocator::{SlabAllocator, SlabConfig};

fn small_slab() -> SlabAllocator {
    SlabAllocator::new(SlabConfig {
        min_object_size: 64,
        max_object_size: 512,
        objects_per_slab: 16,
        pre_allocate_slabs: 2,
        cache_align: true,
    })
    .unwrap()
}

#[test]
fn rejects_zero_minimum_object_size() {
    let r = SlabAllocator::new(SlabConfig {
        min_object_size: 0,
        max_object_size: 512,
        objects_per_slab: 16,
        pre_allocate_slabs: 2,
        cache_align: true,
    });
    assert!(matches!(r, Err(AllocError::InvalidLayout(_))));
}

#[test]
fn size_classes_double_from_min_to_max() {
    let slab = small_slab();
    assert_eq!(slab.size_classes, vec![64, 128, 256, 512]);
    assert_eq!(slab.get_size_class_index(1), Some(0));
    assert_eq!(slab.get_size_class_index(64), Some(0));
    assert_eq!(slab.get_size_class_index(65), Some(1));
    assert_eq!(slab.get_size_class_index(100), Some(1));
    assert_eq!(slab.get_size_class_index(512), Some(3));
    assert_eq!(slab.get_size_class_index(513), None);
}

#[test]
fn hundred_byte_request_comes_from_the_128_class() {
    let mut slab = small_slab();
    let chunk = slab.allocate_object(100).unwrap();
    assert_eq!(chunk.data.len(), 128);
    slab.deallocate_object(chunk, 100);
}

#[test]
fn oversized_request_reports_the_configured_maximum() {
    let mut slab = small_slab();
    match slab.allocate_object(1024) {
        Err(AllocError::SizeExceeded { size, max }) => {
            assert_eq!(size, 1024);
            assert_eq!(max, 512);
        },
        _ => panic!("expected SizeExceeded"),
    }
}

#[test]
fn classes_conserve_their_preallocated_blocks() {
    let mut slab = small_slab();
    // Two blocks per class: a third request from one class is refused,
    // and nothing new is ever created.
    let total_before = slab.total_memory;
    let a = slab.allocate_object(200).unwrap();
    let b = slab.allocate_object(200).unwrap();
    assert!(matches!(
        slab.allocate_object(200),
        Err(AllocError::PoolExhausted)
    ));
    assert_eq!(slab.total_memory, total_before);
    slab.deallocate_object(a, 200);
    slab.deallocate_object(b, 200);
    let again = slab.allocate_object(200).unwrap();
    assert_eq!(again.data.len(), 256);
    slab.deallocate_object(again, 200);

    let stats = slab.get_stats();
    assert_eq!(stats.size_classes, 4);
    assert_eq!(stats.allocated_objects, 3);
    assert_eq!(stats.freed_objects, 3);
    assert_eq!(stats.total_memory, total_before);
}

#[test]
fn uniform_contract_checks_alignment() {
    let mut slab = small_slab();
    assert!(matches!(
        slab.allocate(64, 128),
        Err(AllocError::AlignmentNotSupported { required: 128, supported: 64 })
    ));
    assert_eq!(slab.max_alignment(), 64);
}

#[test]
fn available_memory_shrinks_with_use() {
    let mut slab = small_slab();
    let full = slab.available_memory();
    assert_eq!(full, 2 * (64 + 128 + 256 + 512));
    assert_eq!(slab.total_memory(), full);
    let chunk = slab.allocate(300, 64).unwrap();
    assert_eq!(chunk.data.len(), 512);
    assert_eq!(slab.available_memory(), full - 512);
    slab.deallocate(chunk, 300, 64);
    assert_eq!(slab.available_memory(), full);
}

#[test]
fn live_bytes_return_after_matched_pairs() {
    let mut slab = small_slab();
    let start = slab.in_use_bytes;
    let a = slab.allocate(64, 64).unwrap();
    let b = slab.allocate(500, 64).unwrap();
    assert_eq!(slab.in_use_bytes, start + 64 + 512);
    slab.deallocate(a, 64, 64);
    slab.deallocate(b, 500, 64);
    assert_eq!(slab.in_use_bytes, start);
    assert!(slab.peak_in_use_bytes >= 64 + 512);
}
