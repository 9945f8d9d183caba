//! The waker slot of `futures_util`, as far as the bridge uses it.
//!
//! Nothing in this file is proved. The contracts say what the source of
//! `AtomicWaker` does to its slot when one caller has it to itself, which is
//! what `&mut` means. That a waker given up by `wake` is woken is the waker's
//! own doing and no contract here speaks of it.

use core::task::Waker;
use futures_util::task::AtomicWaker;
use vstd::prelude::*;

verus! {

/// `futures_util::task::AtomicWaker`, taken as it is.
#[verifier::external_type_specification]
#[verifier::external_body]
pub struct ExAtomicWaker(AtomicWaker);

/// `core::task::Waker`, taken as it is.
#[verifier::external_type_specification]
#[verifier::external_body]
pub struct ExWaker(Waker);

/// The waker that was last handed to the slot's `register` and that the slot
/// has not given up since; none if there is no such waker. What the slot
/// stores for it is a clone of that waker, or a waker that it held before and
/// that wakes the same task.
pub uninterp spec fn slot_waker(slot: AtomicWaker) -> Option<Waker>;

/// `AtomicWaker::new`: a slot that holds no waker.
#[verifier::external_body]
pub(crate) fn slot_new() -> (slot: AtomicWaker)
    ensures
        slot_waker(slot) is None,
{
    AtomicWaker::new()
}

/// `AtomicWaker::register`, with the slot to itself: `waker` takes the place
/// of whatever the slot held.
#[verifier::external_body]
pub(crate) fn slot_register(slot: &mut AtomicWaker, waker: &Waker)
    ensures
        slot_waker(*final(slot)) == Some(*waker),
{
    slot.register(waker)
}

/// `AtomicWaker::wake`, with the slot to itself: the slot gives up the waker
/// it holds, if any, and wakes it. The slot is empty afterwards.
#[verifier::external_body]
pub(crate) fn slot_wake(slot: &mut AtomicWaker)
    ensures
        slot_waker(*final(slot)) is None,
{
    slot.wake()
}

/// `AtomicWaker::take`, with the slot to itself: the slot gives up the waker
/// it holds, if any, unwoken. The slot is empty afterwards.
#[verifier::external_body]
pub(crate) fn slot_take(slot: &mut AtomicWaker)
    ensures
        slot_waker(*final(slot)) is None,
{
    drop(slot.take())
}

} // verus!
