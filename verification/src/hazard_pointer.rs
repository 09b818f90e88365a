//! The hazard-pointer domain: threads publish addresses they are about to
//! read into per-thread slots, and retired addresses are reclaimed only
//! when no slot publishes them.  Retired records carry the address together
//! with the size and alignment their deallocator needs; `try_reclaim`
//! returns the records whose deallocators are clear to run, and re-queues
//! the rest.

use vstd::prelude::*;
use crossbeam::queue::SegQueue;
use crate::chunk_queue::{retire_queue_view, retire_queue_new, retire_queue_push, retire_queue_pop};

verus! {

broadcast use vstd::set::group_set_axioms;

/// Hazard slots reserved for each registered thread.
pub const MAX_HAZARD_POINTERS_PER_THREAD: usize = 8;

/// Once this many records await reclamation, a retire triggers a
/// reclamation pass.  A thread's local list migrates to the shared queue at
/// half this threshold.
pub const RETIRE_THRESHOLD: usize = 32;

/// One publication slot: the address a thread announces it is about to
/// read, whether the slot is claimed, and by which thread.
#[derive(Debug, Clone, Copy, PartialEq, Eq, Structural)]
pub struct HazardPointerSlot {
    /// The published address; zero when nothing is protected.
    pub protected: u64,
    /// Whether the slot is claimed.
    pub active: bool,
    /// The ordinal of the thread that claimed the slot.
    pub owner_thread_id: usize,
}

/// A retired record: the address awaiting reclamation, and the size and
/// alignment of the region behind it.
pub type RetiredRecord = (u64, u64, u64);

/// The records of `s` whose address is protected by `hs`: these must stay
/// queued.
pub open spec fn retained_records(s: Seq<RetiredRecord>, hs: Set<u64>) -> Seq<RetiredRecord>
    decreases s.len(),
{
    if s.len() == 0 {
        Seq::empty()
    } else if hs.contains(s.first().0) {
        seq![s.first()] + retained_records(s.drop_first(), hs)
    } else {
        retained_records(s.drop_first(), hs)
    }
}

/// The records of `s` whose address is not protected by `hs`: their
/// deallocators are clear to run.
pub open spec fn reclaimed_records(s: Seq<RetiredRecord>, hs: Set<u64>) -> Seq<RetiredRecord>
    decreases s.len(),
{
    if s.len() == 0 {
        Seq::empty()
    } else if hs.contains(s.first().0) {
        reclaimed_records(s.drop_first(), hs)
    } else {
        seq![s.first()] + reclaimed_records(s.drop_first(), hs)
    }
}

/// Appending a record to the input appends it to exactly one of the two
/// partitions.
proof fn lemma_partition_push(s: Seq<RetiredRecord>, hs: Set<u64>, e: RetiredRecord)
    ensures
        retained_records(s.push(e), hs) == (if hs.contains(e.0) {
            retained_records(s, hs).push(e)
        } else {
            retained_records(s, hs)
        }),
        reclaimed_records(s.push(e), hs) == (if hs.contains(e.0) {
            reclaimed_records(s, hs)
        } else {
            reclaimed_records(s, hs).push(e)
        }),
    decreases s.len(),
{
    let t = s.push(e);
    if s.len() == 0 {
        assert(t.first() == e);
        assert(t.drop_first() =~= Seq::<RetiredRecord>::empty());
        assert(retained_records(t.drop_first(), hs) =~= Seq::<RetiredRecord>::empty());
        assert(reclaimed_records(t.drop_first(), hs) =~= Seq::<RetiredRecord>::empty());
        if hs.contains(e.0) {
            assert(retained_records(t, hs) == seq![e] + retained_records(t.drop_first(), hs));
            assert(retained_records(t, hs) =~= retained_records(s, hs).push(e));
            assert(reclaimed_records(t, hs) =~= reclaimed_records(s, hs));
        } else {
            assert(reclaimed_records(t, hs) == seq![e] + reclaimed_records(t.drop_first(), hs));
            assert(reclaimed_records(t, hs) =~= reclaimed_records(s, hs).push(e));
            assert(retained_records(t, hs) =~= retained_records(s, hs));
        }
    } else {
        assert(t.first() == s.first());
        assert(t.drop_first() =~= s.drop_first().push(e));
        lemma_partition_push(s.drop_first(), hs, e);
        if hs.contains(s.first().0) {
            assert(retained_records(t, hs) == seq![s.first()] + retained_records(
                s.drop_first().push(e),
                hs,
            ));
            assert(retained_records(s, hs) == seq![s.first()] + retained_records(
                s.drop_first(),
                hs,
            ));
            assert(reclaimed_records(t, hs) == reclaimed_records(s.drop_first().push(e), hs));
        } else {
            assert(reclaimed_records(t, hs) == seq![s.first()] + reclaimed_records(
                s.drop_first().push(e),
                hs,
            ));
            assert(reclaimed_records(s, hs) == seq![s.first()] + reclaimed_records(
                s.drop_first(),
                hs,
            ));
            assert(retained_records(t, hs) == retained_records(s.drop_first().push(e), hs));
        }
        if hs.contains(e.0) {
            assert(retained_records(t, hs) =~= retained_records(s, hs).push(e));
            assert(reclaimed_records(t, hs) =~= reclaimed_records(s, hs));
        } else {
            assert(reclaimed_records(t, hs) =~= reclaimed_records(s, hs).push(e));
            assert(retained_records(t, hs) =~= retained_records(s, hs));
        }
    }
}

/// No reclaimed record's address is protected: reclamation never runs a
/// deallocator on an address currently published in any slot.
pub proof fn lemma_reclaimed_not_protected(s: Seq<RetiredRecord>, hs: Set<u64>)
    ensures
        forall|k: int|
            0 <= k < reclaimed_records(s, hs).len() ==> !hs.contains(
                (#[trigger] reclaimed_records(s, hs)[k]).0,
            ),
    decreases s.len(),
{
    if s.len() == 0 {
    } else {
        lemma_reclaimed_not_protected(s.drop_first(), hs);
        let rest = reclaimed_records(s.drop_first(), hs);
        assert forall|k: int|
            0 <= k < reclaimed_records(s, hs).len() implies !hs.contains(
            (#[trigger] reclaimed_records(s, hs)[k]).0,
        ) by {
            if hs.contains(s.first().0) {
                assert(reclaimed_records(s, hs)[k] == rest[k]);
            } else {
                assert(reclaimed_records(s, hs) == seq![s.first()] + rest);
                if k == 0 {
                    assert(reclaimed_records(s, hs)[0] == s.first());
                } else {
                    assert(reclaimed_records(s, hs)[k] == rest[k - 1]);
                }
            }
        }
    }
}

/// Two domain states with the same slots protect the same addresses.
pub proof fn lemma_protected_same_slots(d1: HazardPointerDomain, d2: HazardPointerDomain)
    requires
        d1.slots@ == d2.slots@,
    ensures
        d1.protected_set() == d2.protected_set(),
{
    assert forall|a: u64| d1.protected_set().contains(a) <==> d2.protected_set().contains(a) by {
        d1.lemma_protected_member(a);
        d2.lemma_protected_member(a);
        if d1.is_protected(a) {
            let i = choose|i: int|
                0 <= i < d1.slots@.len() && (#[trigger] d1.slots@[i]).active
                    && d1.slots@[i].protected == a;
            assert((d2.slots@[i]).active);
        }
        if d2.is_protected(a) {
            let i = choose|i: int|
                0 <= i < d2.slots@.len() && (#[trigger] d2.slots@[i]).active
                    && d2.slots@[i].protected == a;
            assert((d1.slots@[i]).active);
        }
    }
    assert(d1.protected_set() =~= d2.protected_set());
}

/// The domain: a fixed array of hazard slots, per-thread lists of freshly
/// retired records, and the shared queue that reclamation drains.
#[derive(Debug)]
pub struct HazardPointerDomain {
    /// The publication slots, `max_threads * 8` of them.
    pub slots: Vec<HazardPointerSlot>,
    /// Per-thread lists of retired records not yet migrated to the shared
    /// queue, indexed by thread ordinal.
    pub local_retired: Vec<Vec<RetiredRecord>>,
    /// The shared queue of retired records awaiting reclamation.
    pub global_retired: SegQueue<RetiredRecord>,
    /// Number of thread ordinals handed out.
    pub active_threads: usize,
}

/// A claimed hazard slot: the holder may publish one address at a time
/// through it.  Releasing it hands the slot back to the domain.
#[derive(Debug, Clone, Copy)]
pub struct HazardPointer {
    /// Index of the claimed slot in the domain.
    pub slot_index: usize,
    /// Ordinal of the claiming thread.
    pub thread_id: usize,
}

impl HazardPointerDomain {
    /// An address is protected while some claimed slot publishes it.
    pub open spec fn is_protected(&self, a: u64) -> bool {
        a != 0 && exists|i: int|
            0 <= i < self.slots@.len() && (#[trigger] self.slots@[i]).active
                && self.slots@[i].protected == a
    }

    /// The set of addresses currently published by claimed slots.
    pub open spec fn protected_set(&self) -> Set<u64> {
        Set::new(|a: u64| self.is_protected(a))
    }

    /// Membership in the protected set is exactly `is_protected`.
    pub proof fn lemma_protected_member(&self, a: u64)
        ensures
            self.protected_set().contains(a) <==> self.is_protected(a),
    {
        broadcast use vstd::set::group_set_axioms;

        assert(self.protected_set().contains(a) == self.is_protected(a));
    }

    /// The structural invariant: one local list per registered thread, an
    /// unclaimed slot publishes nothing, and the slot array is small enough
    /// that a wrapped scan cannot overflow an index.
    pub open spec fn wf(&self) -> bool {
        &&& self.local_retired@.len() == self.active_threads
        &&& self.slots@.len() <= usize::MAX / 2
        &&& forall|i: int|
            0 <= i < self.slots@.len() ==> (!(#[trigger] self.slots@[i]).active ==> self.slots@[i].protected
                == 0)
    }

    /// A domain with `max_threads * 8` free slots and nothing retired.
    pub fn new(max_threads: usize) -> (r: Self)
        requires
            max_threads <= usize::MAX / 16,
        ensures
            r.wf(),
            r.slots@.len() == max_threads * MAX_HAZARD_POINTERS_PER_THREAD,
            forall|i: int| 0 <= i < r.slots@.len() ==> !(#[trigger] r.slots@[i]).active,
            r.active_threads == 0,
            retire_queue_view(r.global_retired) == Seq::<RetiredRecord>::empty(),
    {
        let total_slots = max_threads * MAX_HAZARD_POINTERS_PER_THREAD;
        let mut slots: Vec<HazardPointerSlot> = Vec::with_capacity(total_slots);
        let mut i: usize = 0;
        while i < total_slots
            invariant
                i <= total_slots,
                slots@.len() == i,
                forall|k: int|
                    0 <= k < i ==> !(#[trigger] slots@[k]).active && slots@[k].protected == 0,
            decreases total_slots - i,
        {
            slots.push(HazardPointerSlot { protected: 0, active: false, owner_thread_id: 0 });
            i = i + 1;
        }
        HazardPointerDomain {
            slots,
            local_retired: Vec::new(),
            global_retired: retire_queue_new(),
            active_threads: 0,
        }
    }

    /// Hands out the next thread ordinal and sets up its local retire
    /// list.  A thread registers once and keeps its ordinal.
    pub fn register_thread(&mut self) -> (r: usize)
        requires
            old(self).wf(),
            old(self).active_threads < usize::MAX,
        ensures
            final(self).wf(),
            r == old(self).active_threads,
            final(self).active_threads == old(self).active_threads + 1,
            final(self).local_retired@.len() == old(self).local_retired@.len() + 1,
            final(self).local_retired@[r as int]@ == Seq::<RetiredRecord>::empty(),
            forall|i: int|
                0 <= i < old(self).local_retired@.len() ==> final(self).local_retired@[i]
                    == old(self).local_retired@[i],
            final(self).slots == old(self).slots,
            final(self).global_retired == old(self).global_retired,
    {
        let id = self.active_threads;
        self.active_threads = self.active_threads + 1;
        self.local_retired.push(Vec::new());
        id
    }

    /// Claims a free slot for `thread_id`, scanning from the thread's home
    /// offset `thread_id * 8 mod N`.  Some slot must be free.
    pub fn acquire(&mut self, thread_id: usize) -> (r: HazardPointer)
        requires
            old(self).wf(),
            old(self).slots@.len() > 0,
            exists|i: int| 0 <= i < old(self).slots@.len() && !(#[trigger] old(self).slots@[i]).active,
        ensures
            final(self).wf(),
            r.thread_id == thread_id,
            r.slot_index < final(self).slots@.len(),
            final(self).slots@.len() == old(self).slots@.len(),
            !old(self).slots@[r.slot_index as int].active,
            final(self).slots@[r.slot_index as int] == (HazardPointerSlot {
                protected: 0,
                active: true,
                owner_thread_id: thread_id,
            }),
            forall|i: int|
                0 <= i < old(self).slots@.len() && i != r.slot_index ==> final(self).slots@[i]
                    == old(self).slots@[i],
            final(self).local_retired == old(self).local_retired,
            final(self).global_retired == old(self).global_retired,
            final(self).active_threads == old(self).active_threads,
    {
        let n = self.slots.len();
        let start: usize = (((thread_id as u128) * (MAX_HAZARD_POINTERS_PER_THREAD as u128)) % (
        n as u128)) as usize;
        proof {
            vstd::arithmetic::div_mod::lemma_mod_bound(
                (thread_id as int) * (MAX_HAZARD_POINTERS_PER_THREAD as int),
                n as int,
            );
            assert((thread_id as u128) * (MAX_HAZARD_POINTERS_PER_THREAD as u128) == (
            thread_id as int) * (MAX_HAZARD_POINTERS_PER_THREAD as int)) by (nonlinear_arith);
        }
        let mut j: usize = 0;
        let mut found: usize = n;
        while j < n && found == n
            invariant
                n == self.slots@.len(),
                n > 0,
                n <= usize::MAX / 2,
                start < n,
                j <= n,
                found == n || (found < n && !self.slots@[found as int].active),
                found == n ==> forall|k: int|
                    0 <= k < j ==> (#[trigger] self.slots@[wrap_index(start as int, k, n as int)]).active,
            decreases n - j,
        {
            let idx = if start + j < n {
                start + j
            } else {
                start + j - n
            };
            proof {
                assert(idx as int == wrap_index(start as int, j as int, n as int));
            }
            if !self.slots[idx].active {
                found = idx;
            }
            j = j + 1;
        }
        proof {
            if found == n {
                let w = choose|i: int|
                    0 <= i < self.slots@.len() && !(#[trigger] self.slots@[i]).active;
                let jw = if w >= start {
                    w - start
                } else {
                    w + n - start
                };
                assert(wrap_index(start as int, jw, n as int) == w);
                assert(self.slots@[w].active);
                assert(false);
            }
        }
        self.slots.set(
            found,
            HazardPointerSlot { protected: 0, active: true, owner_thread_id: thread_id },
        );
        HazardPointer { slot_index: found, thread_id }
    }
}

/// The `k`-th index visited by a scan that starts at `start` and wraps at
/// `n`.
pub open spec fn wrap_index(start: int, k: int, n: int) -> int {
    if start + k < n {
        start + k
    } else {
        start + k - n
    }
}

impl HazardPointer {
    /// The handle points at a slot this holder claimed.
    pub open spec fn valid(&self, d: HazardPointerDomain) -> bool {
        &&& self.slot_index < d.slots@.len()
        &&& d.slots@[self.slot_index as int].active
        &&& d.slots@[self.slot_index as int].owner_thread_id == self.thread_id
    }

    /// The ordinal of the thread that claimed this slot.
    pub fn thread_id(&self) -> (r: usize)
        ensures
            r == self.thread_id,
    {
        self.thread_id
    }

    /// Publishes `addr` in the claimed slot, so that a reclamation pass
    /// that starts after this call will not free it.
    pub fn protect(&self, domain: &mut HazardPointerDomain, addr: u64) -> (r: bool)
        requires
            old(domain).wf(),
            self.valid(*old(domain)),
        ensures
            final(domain).wf(),
            self.valid(*final(domain)),
            final(domain).slots@.len() == old(domain).slots@.len(),
            final(domain).slots@[self.slot_index as int] == (HazardPointerSlot {
                protected: addr,
                active: true,
                owner_thread_id: self.thread_id,
            }),
            forall|i: int|
                0 <= i < old(domain).slots@.len() && i != self.slot_index ==> final(domain).slots@[i] == old(domain).slots@[i],
            final(domain).local_retired == old(domain).local_retired,
            final(domain).global_retired == old(domain).global_retired,
            final(domain).active_threads == old(domain).active_threads,
            r,
    {
        domain.slots.set(
            self.slot_index,
            HazardPointerSlot { protected: addr, active: true, owner_thread_id: self.thread_id },
        );
        true
    }

    /// The classic hazard-pointer read protocol against a source address:
    /// a zero source is not protected; any other source is published and
    /// returned.
    pub fn protect_ptr(&self, domain: &mut HazardPointerDomain, source: u64) -> (r: Option<u64>)
        requires
            old(domain).wf(),
            self.valid(*old(domain)),
        ensures
            final(domain).wf(),
            self.valid(*final(domain)),
            final(domain).slots@.len() == old(domain).slots@.len(),
            source == 0 ==> r is None && *final(domain) == *old(domain),
            source != 0 ==> {
                &&& r == Some(source)
                &&& final(domain).slots@[self.slot_index as int] == (HazardPointerSlot {
                    protected: source,
                    active: true,
                    owner_thread_id: self.thread_id,
                })
                &&& forall|i: int|
                    0 <= i < old(domain).slots@.len() && i != self.slot_index ==> final(domain).slots@[i] == old(domain).slots@[i]
            },
            final(domain).local_retired == old(domain).local_retired,
            final(domain).global_retired == old(domain).global_retired,
            final(domain).active_threads == old(domain).active_threads,
    {
        if source == 0 {
            None
        } else {
            self.protect(domain, source);
            Some(source)
        }
    }

    /// Withdraws the published address without releasing the slot.
    pub fn clear(&self, domain: &mut HazardPointerDomain)
        requires
            old(domain).wf(),
            self.valid(*old(domain)),
        ensures
            final(domain).wf(),
            self.valid(*final(domain)),
            final(domain).slots@.len() == old(domain).slots@.len(),
            final(domain).slots@[self.slot_index as int] == (HazardPointerSlot {
                protected: 0,
                active: true,
                owner_thread_id: self.thread_id,
            }),
            forall|i: int|
                0 <= i < old(domain).slots@.len() && i != self.slot_index ==> final(domain).slots@[i] == old(domain).slots@[i],
            final(domain).local_retired == old(domain).local_retired,
            final(domain).global_retired == old(domain).global_retired,
            final(domain).active_threads == old(domain).active_threads,
    {
        domain.slots.set(
            self.slot_index,
            HazardPointerSlot { protected: 0, active: true, owner_thread_id: self.thread_id },
        );
    }

    /// Clears and releases the slot, handing it back to the domain.
    pub fn release(self, domain: &mut HazardPointerDomain)
        requires
            old(domain).wf(),
            self.valid(*old(domain)),
        ensures
            final(domain).wf(),
            final(domain).slots@.len() == old(domain).slots@.len(),
            final(domain).slots@[self.slot_index as int] == (HazardPointerSlot {
                protected: 0,
                active: false,
                owner_thread_id: 0,
            }),
            forall|i: int|
                0 <= i < old(domain).slots@.len() && i != self.slot_index ==> final(domain).slots@[i] == old(domain).slots@[i],
            final(domain).local_retired == old(domain).local_retired,
            final(domain).global_retired == old(domain).global_retired,
            final(domain).active_threads == old(domain).active_threads,
    {
        domain.slots.set(
            self.slot_index,
            HazardPointerSlot { protected: 0, active: false, owner_thread_id: 0 },
        );
    }
}

/// Whether `v` holds `x`, by linear scan.
fn vec_contains(v: &Vec<u64>, x: u64) -> (r: bool)
    ensures
        r == v@.contains(x),
{
    let n = v.len();
    let mut i: usize = 0;
    while i < n
        invariant
            n == v@.len(),
            i <= n,
            forall|k: int| 0 <= k < i ==> v@[k] != x,
        decreases n - i,
    {
        if v[i] == x {
            return true;
        }
        i = i + 1;
    }
    false
}

impl HazardPointerDomain {
    /// Queues a retired record on the calling thread's local list.  When
    /// the local list reaches half the retirement threshold it migrates to
    /// the shared queue and a reclamation pass runs; the returned records
    /// are the ones whose deallocators are clear to run, and the caller
    /// must free them.  A record's address stays queued as long as any
    /// slot publishes it.  The caller must have registered its thread
    /// ordinal first: every retirement goes through a per-thread list, so
    /// there is no anonymous path straight onto the shared queue.
    pub fn retire_ptr(&mut self, thread_id: usize, addr: u64, size: u64, align: u64) -> (r: Vec<
        RetiredRecord,
    >)
        requires
            old(self).wf(),
            thread_id < old(self).local_retired@.len(),
        ensures
            final(self).wf(),
            final(self).slots == old(self).slots,
            final(self).active_threads == old(self).active_threads,
            final(self).local_retired@.len() == old(self).local_retired@.len(),
            forall|i: int|
                0 <= i < old(self).local_retired@.len() && i != thread_id ==> final(self).local_retired@[i] == old(self).local_retired@[i],
            ({
                let lst = old(self).local_retired@[thread_id as int]@.push((addr, size, align));
                let g = retire_queue_view(old(self).global_retired);
                if lst.len() < RETIRE_THRESHOLD / 2 {
                    &&& final(self).local_retired@[thread_id as int]@ == lst
                    &&& final(self).global_retired == old(self).global_retired
                    &&& r@.len() == 0
                } else {
                    &&& final(self).local_retired@[thread_id as int]@ == Seq::<
                        RetiredRecord,
                    >::empty()
                    &&& r@ == reclaimed_records(g + lst, old(self).protected_set())
                    &&& retire_queue_view(final(self).global_retired) == retained_records(
                        g + lst,
                        old(self).protected_set(),
                    )
                    &&& forall|k: int|
                        0 <= k < r@.len() ==> !old(self).protected_set().contains(
                            (#[trigger] r@[k]).0,
                        )
                }
            }),
    {
        let ghost g = retire_queue_view(self.global_retired);
        let mut lst = self.local_retired.remove(thread_id);
        lst.push((addr, size, align));
        let migrate = lst.len() >= RETIRE_THRESHOLD / 2;
        let ghost full = lst@;
        let ghost locs = self.local_retired@;
        if migrate {
            let m = lst.len();
            let mut j: usize = 0;
            proof {
                assert(g + full.take(0) =~= g);
            }
            while j < m
                invariant
                    m == lst@.len(),
                    j <= m,
                    lst@ == full,
                    retire_queue_view(self.global_retired) == g + lst@.take(j as int),
                    self.slots == old(self).slots,
                    self.local_retired@ == locs,
                    self.active_threads == old(self).active_threads,
                decreases m - j,
            {
                let rec = lst[j];
                retire_queue_push(&mut self.global_retired, rec);
                proof {
                    assert((g + lst@.take(j as int)).push(lst@[j as int]) =~= g + lst@.take(
                        j + 1 as int,
                    ));
                }
                j = j + 1;
            }
            proof {
                assert(lst@.take(m as int) =~= lst@);
            }
            lst.clear();
        }
        self.local_retired.insert(thread_id, lst);
        proof {
            assert(self.local_retired@ =~= old(self).local_retired@.update(
                thread_id as int,
                self.local_retired@[thread_id as int],
            ));
        }
        if migrate {
            proof {
                lemma_protected_same_slots(*self, *old(self));
            }
            let reclaimed = self.try_reclaim();
            proof {
                lemma_reclaimed_not_protected(g + full, old(self).protected_set());
            }
            reclaimed
        } else {
            Vec::new()
        }
    }

    /// One reclamation pass: snapshots the protected addresses, drains the
    /// shared queue, hands back the records whose address is unprotected —
    /// their deallocators are clear to run — and re-queues the rest in
    /// order.  Reclamation never hands back an address currently published
    /// in any slot.
    pub fn try_reclaim(&mut self) -> (r: Vec<RetiredRecord>)
        requires
            old(self).wf(),
        ensures
            final(self).wf(),
            final(self).slots == old(self).slots,
            final(self).local_retired == old(self).local_retired,
            final(self).active_threads == old(self).active_threads,
            r@ == reclaimed_records(
                retire_queue_view(old(self).global_retired),
                old(self).protected_set(),
            ),
            retire_queue_view(final(self).global_retired) == retained_records(
                retire_queue_view(old(self).global_retired),
                old(self).protected_set(),
            ),
            forall|k: int|
                0 <= k < r@.len() ==> !old(self).protected_set().contains((#[trigger] r@[k]).0),
    {
        let ghost hs = old(self).protected_set();

        // Snapshot the published addresses.
        let mut hazards: Vec<u64> = Vec::new();
        let n = self.slots.len();
        let mut i: usize = 0;
        while i < n
            invariant
                n == self.slots@.len(),
                i <= n,
                self.slots == old(self).slots,
                self.local_retired == old(self).local_retired,
                self.global_retired == old(self).global_retired,
                self.active_threads == old(self).active_threads,
                hs == old(self).protected_set(),
                forall|idx: int| 0 <= idx < hazards@.len() ==> hs.contains(#[trigger] hazards@[idx]),
                forall|k: int|
                    0 <= k < i && (#[trigger] self.slots@[k]).active && self.slots@[k].protected
                        != 0 ==> hazards@.contains(self.slots@[k].protected),
            decreases n - i,
        {
            let s = self.slots[i];
            let ghost pre = hazards@;
            if s.active && s.protected != 0 {
                hazards.push(s.protected);
                proof {
                    assert(old(self).slots@[i as int].active && old(self).slots@[i as int].protected
                        == s.protected && s.protected != 0);
                    assert(exists|k: int|
                        0 <= k < old(self).slots@.len() && (#[trigger] old(self).slots@[k]).active
                            && old(self).slots@[k].protected == s.protected) by {
                        assert((old(self).slots@[i as int]).active);
                    }
                    assert(old(self).is_protected(s.protected));
                    old(self).lemma_protected_member(s.protected);
                    assert(hs.contains(s.protected));
                    assert(hazards@[pre.len() as int] == s.protected);
                    assert forall|k: int|
                        0 <= k < i + 1 && (#[trigger] self.slots@[k]).active
                            && self.slots@[k].protected != 0 implies hazards@.contains(
                        self.slots@[k].protected,
                    ) by {
                        if k < i {
                            let idx = choose|idx: int|
                                0 <= idx < pre.len() && pre[idx] == self.slots@[k].protected;
                            assert(hazards@[idx] == self.slots@[k].protected);
                        } else {
                            assert(hazards@[pre.len() as int] == self.slots@[k].protected);
                        }
                    }
                }
            } else {
                proof {
                    assert forall|k: int|
                        0 <= k < i + 1 && (#[trigger] self.slots@[k]).active
                            && self.slots@[k].protected != 0 implies hazards@.contains(
                        self.slots@[k].protected,
                    ) by {
                        assert(k < i);
                    }
                }
            }
            i = i + 1;
        }
        proof {
            assert forall|a: u64| hazards@.contains(a) implies hs.contains(a) by {
                let idx = choose|idx: int| 0 <= idx < hazards@.len() && hazards@[idx] == a;
                assert(hs.contains(hazards@[idx]));
            }
            assert forall|a: u64| hs.contains(a) implies hazards@.contains(a) by {
                old(self).lemma_protected_member(a);
                assert(old(self).is_protected(a));
                let k = choose|k: int|
                    0 <= k < old(self).slots@.len() && (#[trigger] old(self).slots@[k]).active
                        && old(self).slots@[k].protected == a;
                assert(self.slots@[k].active && self.slots@[k].protected == a);
            }
        }

        // Drain the shared queue.
        let ghost g = retire_queue_view(self.global_retired);
        let mut drained: Vec<RetiredRecord> = Vec::new();
        let mut done = false;
        proof {
            assert(drained@ + retire_queue_view(self.global_retired) =~= g);
        }
        while !done
            invariant
                self.slots == old(self).slots,
                self.local_retired == old(self).local_retired,
                self.active_threads == old(self).active_threads,
                drained@ + retire_queue_view(self.global_retired) == g,
                done ==> retire_queue_view(self.global_retired).len() == 0,
            decreases retire_queue_view(self.global_retired).len() + (if done { 0int } else { 1 }),
        {
            match retire_queue_pop(&mut self.global_retired) {
                Some(rec) => {
                    drained.push(rec);
                    proof {
                        assert(drained@ + retire_queue_view(self.global_retired) =~= g);
                    }
                },
                None => {
                    done = true;
                },
            }
        }
        proof {
            assert(drained@ =~= g);
        }

        // Partition: unprotected records are clear to reclaim, protected
        // ones go back on the queue.
        let mut reclaimed: Vec<RetiredRecord> = Vec::new();
        let mut deferred: Vec<RetiredRecord> = Vec::new();
        let m = drained.len();
        let mut j: usize = 0;
        proof {
            assert(drained@.take(0) =~= Seq::<RetiredRecord>::empty());
        }
        while j < m
            invariant
                m == drained@.len(),
                j <= m,
                self.slots == old(self).slots,
                self.local_retired == old(self).local_retired,
                self.active_threads == old(self).active_threads,
                self.slots@.len() <= usize::MAX / 2,
                hs == old(self).protected_set(),
                forall|a: u64| hazards@.contains(a) <==> hs.contains(a),
                reclaimed@ == reclaimed_records(drained@.take(j as int), hs),
                deferred@ == retained_records(drained@.take(j as int), hs),
            decreases m - j,
        {
            let rec = drained[j];
            proof {
                lemma_partition_push(drained@.take(j as int), hs, drained@[j as int]);
                assert(drained@.take(j as int).push(drained@[j as int]) =~= drained@.take(
                    j + 1 as int,
                ));
            }
            if vec_contains(&hazards, rec.0) {
                deferred.push(rec);
            } else {
                reclaimed.push(rec);
            }
            j = j + 1;
        }
        proof {
            assert(drained@.take(m as int) =~= drained@);
        }

        // Re-queue the deferred records in their original order.
        let d = deferred.len();
        let mut k: usize = 0;
        proof {
            assert(retire_queue_view(self.global_retired) + deferred@.take(0)
                =~= retire_queue_view(self.global_retired));
            assert(retire_queue_view(self.global_retired).len() == 0);
            assert(retire_queue_view(self.global_retired) =~= Seq::<RetiredRecord>::empty());
        }
        while k < d
            invariant
                d == deferred@.len(),
                k <= d,
                self.slots == old(self).slots,
                self.local_retired == old(self).local_retired,
                self.active_threads == old(self).active_threads,
                retire_queue_view(self.global_retired) == deferred@.take(k as int),
            decreases d - k,
        {
            let rec = deferred[k];
            retire_queue_push(&mut self.global_retired, rec);
            proof {
                assert(deferred@.take(k as int).push(deferred@[k as int]) =~= deferred@.take(
                    k + 1 as int,
                ));
            }
            k = k + 1;
        }
        proof {
            assert(deferred@.take(d as int) =~= deferred@);
            lemma_reclaimed_not_protected(g, hs);
        }
        reclaimed
    }
}

} // verus!
