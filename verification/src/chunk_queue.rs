//! The free-list queues shared by the pool backends: recycled chunks and
//! retired records wait in lock-free multi-producer/multi-consumer queues
//! from the crossbeam crate.  The queue is first-in first-out; its contents
//! are modelled front to back.

use vstd::prelude::*;
use crossbeam::queue::SegQueue;

verus! {

#[verifier::external_type_specification]
#[verifier::external_body]
#[verifier::reject_recursive_types(T)]
pub struct ExSegQueue<T>(SegQueue<T>);

/// What a chunk queue holds, front to back: each element is a byte buffer
/// together with a 64-bit tag (a generation, or a size class).
pub uninterp spec fn chunk_queue_view(q: SegQueue<(Vec<u8>, u64)>) -> Seq<(Seq<u8>, u64)>;

/// Relies on crossbeam's `SegQueue::new`: creates an empty queue.
#[verifier::external_body]
pub(crate) fn chunk_queue_new() -> (q: SegQueue<(Vec<u8>, u64)>)
    ensures
        chunk_queue_view(q) == Seq::<(Seq<u8>, u64)>::empty(),
{
    SegQueue::new()
}

/// Relies on crossbeam's `SegQueue::push`: appends the element at the tail.
#[verifier::external_body]
pub(crate) fn chunk_queue_push(q: &mut SegQueue<(Vec<u8>, u64)>, data: Vec<u8>, tag: u64)
    ensures
        chunk_queue_view(*final(q)) == chunk_queue_view(*old(q)).push((data@, tag)),
{
    q.push((data, tag));
}

/// Relies on crossbeam's `SegQueue::pop`: removes and returns the element
/// at the head; an empty queue yields nothing.
#[verifier::external_body]
pub(crate) fn chunk_queue_pop(q: &mut SegQueue<(Vec<u8>, u64)>) -> (r: Option<(Vec<u8>, u64)>)
    ensures
        match r {
            Some(e) => {
                &&& chunk_queue_view(*old(q)).len() > 0
                &&& (e.0@, e.1) == chunk_queue_view(*old(q))[0]
                &&& chunk_queue_view(*final(q)) == chunk_queue_view(*old(q)).drop_first()
            },
            None => {
                &&& chunk_queue_view(*old(q)).len() == 0
                &&& chunk_queue_view(*final(q)) == chunk_queue_view(*old(q))
            },
        },
{
    q.pop()
}

/// Relies on crossbeam's `SegQueue::len`: the number of queued elements.
#[verifier::external_body]
pub(crate) fn chunk_queue_len(q: &SegQueue<(Vec<u8>, u64)>) -> (r: usize)
    ensures
        r == chunk_queue_view(*q).len(),
{
    q.len()
}

/// What the retirement queue of the hazard-pointer domain holds, front to
/// back: retired records as (address, size, alignment) triples.
pub uninterp spec fn retire_queue_view(q: SegQueue<(u64, u64, u64)>) -> Seq<(u64, u64, u64)>;

/// Relies on crossbeam's `SegQueue::new`: creates an empty queue.
#[verifier::external_body]
pub(crate) fn retire_queue_new() -> (q: SegQueue<(u64, u64, u64)>)
    ensures
        retire_queue_view(q) == Seq::<(u64, u64, u64)>::empty(),
{
    SegQueue::new()
}

/// Relies on crossbeam's `SegQueue::push`: appends the element at the tail.
#[verifier::external_body]
pub(crate) fn retire_queue_push(q: &mut SegQueue<(u64, u64, u64)>, record: (u64, u64, u64))
    ensures
        retire_queue_view(*final(q)) == retire_queue_view(*old(q)).push(record),
{
    q.push(record);
}

/// Relies on crossbeam's `SegQueue::pop`: removes and returns the element
/// at the head; an empty queue yields nothing.
#[verifier::external_body]
pub(crate) fn retire_queue_pop(q: &mut SegQueue<(u64, u64, u64)>) -> (r: Option<(u64, u64, u64)>)
    ensures
        match r {
            Some(e) => {
                &&& retire_queue_view(*old(q)).len() > 0
                &&& e == retire_queue_view(*old(q))[0]
                &&& retire_queue_view(*final(q)) == retire_queue_view(*old(q)).drop_first()
            },
            None => {
                &&& retire_queue_view(*old(q)).len() == 0
                &&& retire_queue_view(*final(q)) == retire_queue_view(*old(q))
            },
        },
{
    q.pop()
}

} // verus!
