use shriven_q::hazard_pointer::{HazardPointerDomain, RETIRE_THRESHOLD};

#[test]
fn acquire_scans_from_the_thread_home_offset() {
    let mut domain = HazardPointerDomain::new(4);
    let tid = domain.register_thread();
    assert_eq!(tid, 0);
    let hp = domain.acquire(tid);
    assert_eq!(hp.thread_id(), 0);
    assert_eq!(hp.slot_index, 0);
    let hp2 = domain.acquire(tid);
    assert_eq!(hp2.slot_index, 1);
    hp2.release(&mut domain);
    hp.release(&mut domain);
}

#[test]
fn protect_ptr_follows_the_read_protocol() {
    let mut domain = HazardPointerDomain::new(4);
    let tid = domain.register_thread();
    let hp = domain.acquire(tid);
    assert_eq!(hp.protect_ptr(&mut domain, 0), None);
    assert_eq!(hp.protect_ptr(&mut domain, 0xBEEF), Some(0xBEEF));
    hp.clear(&mut domain);
    hp.release(&mut domain);
}

#[test]
fn protected_address_survives_reclamation_until_release() {
    let mut domain = HazardPointerDomain::new(32);
    let tid = domain.register_thread();
    let hp = domain.acquire(tid);
    let addr: u64 = 0x1000;
    hp.protect(&mut domain, addr);

    // Retire the protected address plus enough others to force the local
    // list onto the shared queue and trigger a reclamation pass.
    let mut reclaimed_in_passes: Vec<(u64, u64, u64)> = Vec::new();
    reclaimed_in_passes.extend(domain.retire_ptr(tid, addr, 4096, 64));
    let mut extra = 0x2000;
    while reclaimed_in_passes.is_empty() {
        reclaimed_in_passes.extend(domain.retire_ptr(tid, extra, 4096, 64));
        extra += 0x10;
    }
    assert!(reclaimed_in_passes.iter().all(|r| r.0 != addr));

    // A direct pass still refuses to run the protected deallocator.
    let pass = domain.try_reclaim();
    assert!(pass.iter().all(|r| r.0 != addr));

    // After release the address is reclaimed exactly once.
    hp.release(&mut domain);
    let freed = domain.try_reclaim();
    assert_eq!(freed.iter().filter(|r| r.0 == addr).count(), 1);
    assert!(freed.iter().all(|r| r.1 == 4096 && r.2 == 64));
    let empty_pass = domain.try_reclaim();
    assert!(empty_pass.iter().all(|r| r.0 != addr));
}

#[test]
fn many_threads_retire_and_everything_unprotected_is_freed() {
    let mut domain = HazardPointerDomain::new(32);
    let mut tids = Vec::new();
    for _ in 0..32 {
        tids.push(domain.register_thread());
    }
    let per_thread: u64 = 100;
    let mut reclaimed = 0usize;
    for (ordinal, tid) in tids.iter().enumerate() {
        for k in 0..per_thread {
            let addr = 0x1_0000 + (ordinal as u64) * 0x1000 + k * 8;
            reclaimed += domain.retire_ptr(*tid, addr, 64, 8).len();
        }
    }
    reclaimed += domain.try_reclaim().len();
    // Drain what may still sit on the local lists by pushing each list
    // over the migration threshold.
    for tid in &tids {
        for k in 0..(RETIRE_THRESHOLD as u64) {
            let addr = 0xF00_0000 + (*tid as u64) * 0x1000 + k * 8;
            reclaimed += domain.retire_ptr(*tid, addr, 64, 8).len();
        }
    }
    reclaimed += domain.try_reclaim().len();
    assert!(reclaimed >= 32 * per_thread as usize);
}
