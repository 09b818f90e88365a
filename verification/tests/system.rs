use shriven_q::allocator::AllocError;
use shriven_q::backend::MemoryBackend;
use shriven_q::execution::{ExecutionMode, ModeSwitcher};
use shriven_q::lock_free_pool::PoolConfig;
use shriven_q::registry::{default_backend, MemorySystemSlot};
use shriven_q::safe_pool::SafePoolConfig;
use shriven_q::slab_allocator::SlabConfig;
use shriven_q::stats::AllocationTimer;
use shriven_q::time::PrecisionTimer;

#[test]
fn the_slot_initializes_exactly_once() {
    let mut slot = MemorySystemSlot::new();
    assert!(matches!(
        slot.memory_system(),
        Err(AllocError::NotInitialized)
    ));
    let backend = default_backend(false).unwrap();
    slot.initialize(backend).unwrap();
    let system = slot.memory_system().unwrap();
    assert_eq!(system.backend.backend_type(), "Safe");
    let second = default_backend(false).unwrap();
    assert!(matches!(
        slot.initialize(second),
        Err(AllocError::AlreadyInitialized)
    ));
    // The first system is still in place.
    assert!(slot.memory_system().is_ok());
}

#[test]
fn the_capability_switch_selects_the_backend() {
    let fast = default_backend(true).unwrap();
    assert_eq!(fast.backend_type(), "LockFree");
    assert!(fast.is_unsafe());
    let safe = default_backend(false).unwrap();
    assert_eq!(safe.backend_type(), "Safe");
    assert!(!safe.is_unsafe());
}

#[test]
fn every_backend_kind_carries_its_name() {
    let safe = MemoryBackend::safe(SafePoolConfig {
        chunk_size: 64,
        initial_chunks: 1,
        max_chunks: 1,
        zero_on_dealloc: false,
    })
    .unwrap();
    assert_eq!(safe.backend_type(), "Safe");

    let lock_free = MemoryBackend::lock_free(PoolConfig {
        chunk_size: 64,
        initial_chunks: 1,
        max_chunks: 1,
        alignment: 64,
        zero_on_dealloc: false,
        thread_cache_size: 1,
    })
    .unwrap();
    assert_eq!(lock_free.backend_type(), "LockFree");
    assert!(lock_free.is_unsafe());

    let slab = MemoryBackend::slab(SlabConfig {
        min_object_size: 64,
        max_object_size: 64,
        objects_per_slab: 1,
        pre_allocate_slabs: 1,
        cache_align: true,
    })
    .unwrap();
    assert_eq!(slab.backend_type(), "Slab");

    let numa = MemoryBackend::numa(Default::default()).unwrap();
    assert_eq!(numa.backend_type(), "NUMA-aware");
}

#[test]
fn the_mode_switcher_remembers_the_current_mode() {
    let mut switcher = ModeSwitcher::new(ExecutionMode::Paper);
    assert_eq!(switcher.current_mode(), ExecutionMode::Paper);
    assert_eq!(switcher.current_mode().label(), "PAPER");
    switcher.switch_mode(ExecutionMode::Live);
    assert_eq!(switcher.current_mode(), ExecutionMode::Live);
    assert_eq!(switcher.current_mode().label(), "LIVE");
    switcher.switch_mode(ExecutionMode::Backtest);
    assert_eq!(switcher.current_mode().label(), "BACKTEST");
}

#[test]
fn timers_run_forward() {
    let timer = PrecisionTimer::start();
    let a = timer.elapsed_nanos();
    let b = timer.elapsed_nanos();
    assert!(b >= a);
    assert!(timer.elapsed_micros() <= timer.elapsed_nanos() / 1000 + 1);

    let alloc_timer = AllocationTimer::start();
    let first = alloc_timer.elapsed_ns();
    let second = alloc_timer.elapsed_ns();
    assert!(second >= first);
}

#[test]
fn errors_describe_themselves() {
    assert_eq!(AllocError::PoolExhausted.message(), "memory pool exhausted");
    assert_eq!(AllocError::OutOfMemory.message(), "out of memory");
    assert_eq!(
        AllocError::NotInitialized.message(),
        "memory system not initialized"
    );
    assert_eq!(
        AllocError::AlreadyInitialized.message(),
        "memory system already initialized"
    );
    assert_eq!(
        AllocError::SizeExceeded { size: 10, max: 5 }.message(),
        "allocation size exceeds maximum"
    );
}
