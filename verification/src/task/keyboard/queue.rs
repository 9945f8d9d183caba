//! The queue of `crossbeam_queue`, as far as the bridge uses it.
//!
//! Nothing in this file is proved. The contracts say what the source of
//! `ArrayQueue` does when one caller has the queue to itself, which is what
//! `&mut` means.

use crossbeam_queue::ArrayQueue;
use vstd::prelude::*;

verus! {

/// `crossbeam_queue::ArrayQueue`, taken as it is.
#[verifier::external_type_specification]
#[verifier::external_body]
#[verifier::reject_recursive_types(T)]
pub struct ExArrayQueue<T>(ArrayQueue<T>);

/// The bytes that a queue holds, the oldest first.
pub uninterp spec fn queue_contents(queue: ArrayQueue<u8>) -> Seq<u8>;

/// The capacity that a queue was made with.
pub uninterp spec fn queue_capacity(queue: ArrayQueue<u8>) -> nat;

/// `ArrayQueue::new`: an empty queue of the capacity asked for. It panics on a
/// capacity of 0 and cannot allocate one that is too large for the address
/// space: the wrapper takes capacities from 1 to 2^20.
#[verifier::external_body]
pub(crate) fn queue_new(capacity: usize) -> (queue: ArrayQueue<u8>)
    requires
        0 < capacity <= 0x10_0000,
    ensures
        queue_contents(queue) == Seq::<u8>::empty(),
        queue_capacity(queue) == capacity,
{
    ArrayQueue::new(capacity)
}

/// `ArrayQueue::push`, with the queue to itself: the byte goes to the back of
/// the queue and the call succeeds, unless the queue holds as many bytes as
/// its capacity allows; then the call fails and the queue is as it was.
#[verifier::external_body]
pub(crate) fn queue_push(queue: &mut ArrayQueue<u8>, byte: u8) -> (pushed: bool)
    ensures
        pushed == (queue_contents(*old(queue)).len() < queue_capacity(*old(queue))),
        queue_contents(*final(queue)) == if pushed {
            queue_contents(*old(queue)).push(byte)
        } else {
            queue_contents(*old(queue))
        },
        queue_capacity(*final(queue)) == queue_capacity(*old(queue)),
{
    queue.push(byte).is_ok()
}

/// `ArrayQueue::pop`, with the queue to itself: the oldest byte leaves the
/// queue and is returned, unless the queue is empty; then the call fails and
/// the queue is as it was.
#[verifier::external_body]
pub(crate) fn queue_pop(queue: &mut ArrayQueue<u8>) -> (popped: Option<u8>)
    ensures
        popped == if queue_contents(*old(queue)).len() > 0 {
            Some(queue_contents(*old(queue)).first())
        } else {
            None
        },
        queue_contents(*final(queue)) == if queue_contents(*old(queue)).len() > 0 {
            queue_contents(*old(queue)).drop_first()
        } else {
            queue_contents(*old(queue))
        },
        queue_capacity(*final(queue)) == queue_capacity(*old(queue)),
{
    queue.pop().ok()
}

} // verus!
