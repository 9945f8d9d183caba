//! The bridge from the keyboard interrupt to the task that consumes scancodes.
//!
//! The interrupt handler pushes each byte it read into a bounded queue and
//! wakes the consumer; it never waits. The consumer polls: it takes the oldest
//! byte, or leaves its waker behind and is told to come back. A byte that comes
//! while the queue is full is dropped.
//!
//! The bridge is one value that the kernel keeps for as long as it runs. Both
//! sides reach it through `&mut`, so the caller must see to it that the
//! interrupt cannot cut into a call: by masking interrupts around the
//! consumer's calls.

use core::task::Waker;
use crossbeam_queue::ArrayQueue;
use futures_util::task::AtomicWaker;
use queue::{queue_capacity, queue_contents, queue_new, queue_pop, queue_push};
use vstd::prelude::*;
use waker::{slot_new, slot_register, slot_take, slot_wake, slot_waker};

pub mod decoder;
pub mod disk_writer;
pub mod keys;
pub mod queue;
pub mod waker;

pub use disk_writer::DiskWriter;
pub use decoder::Decoder;
pub use keys::{
    print_key, print_keypresses, text_edit_process_key, text_editor, Control, Edit, Key,
    KeyAction, BACKSPACE,
};

verus! {

/// The number of scancodes that the queue holds at most.
pub const SCANCODE_QUEUE_CAPACITY: usize = 100;

/// What became of a byte that the interrupt handler pushed.
#[derive(Clone, Copy, PartialEq, Eq, Structural, Debug)]
pub enum PushOutcome {
    /// The byte is in the queue, and the consumer's waker, if one was
    /// registered, has left the slot to be woken.
    Queued,
    /// The queue was full: the byte is lost.
    QueueFull,
    /// No queue has been made yet: the byte is lost.
    Uninitialized,
}

/// What a poll of the scancode stream gave.
#[derive(Clone, Copy, PartialEq, Eq, Structural, Debug)]
pub enum Polled {
    /// The oldest byte of the queue, which has left it.
    Ready(u8),
    /// Nothing: the queue was empty. The waker is registered.
    Pending,
}

/// What a [`ScancodeQueue`] is in contracts.
pub struct BridgeView {
    /// The bytes in the queue, the oldest first; none before the queue is made.
    pub queue: Option<Seq<u8>>,
    /// The number of bytes that the queue holds at most.
    pub capacity: nat,
    /// What the waker slot holds: the waker that was registered last and that
    /// the slot has not given up since, by a wake or by being cleared.
    pub waker: Option<Waker>,
}

impl BridgeView {
    /// The bridge after the interrupt handler has pushed `byte`, and what
    /// became of the byte. A byte that is taken goes to the back of the queue
    /// and empties the waker slot, waking what was in it; a byte that is
    /// dropped changes nothing.
    pub open spec fn push(self, byte: u8) -> (BridgeView, PushOutcome) {
        match self.queue {
            None => (self, PushOutcome::Uninitialized),
            Some(queue) => if queue.len() < self.capacity {
                (
                    BridgeView { queue: Some(queue.push(byte)), waker: None, ..self },
                    PushOutcome::Queued,
                )
            } else {
                (self, PushOutcome::QueueFull)
            },
        }
    }

    /// The waker that a push of a byte wakes: the registered one, if the byte
    /// is taken.
    pub open spec fn woken_by_push(self) -> Option<Waker> {
        match self.queue {
            Some(queue) if queue.len() < self.capacity => self.waker,
            _ => None,
        }
    }

    /// The bridge after the consumer has tried to take a byte without leaving
    /// a waker, and the byte it got: the oldest, if there is one.
    pub open spec fn try_next(self) -> (BridgeView, Option<u8>) {
        match self.queue {
            Some(queue) if queue.len() > 0 => (
                BridgeView { queue: Some(queue.drop_first()), ..self },
                Some(queue.first()),
            ),
            _ => (self, None),
        }
    }

    /// The bridge after the consumer has registered `waker` and then looked
    /// into the queue once more, and what it got. If a byte has come
    /// meanwhile, the consumer takes it and clears the slot; if none has, the
    /// waker stays registered.
    pub open spec fn park(self, waker: Waker) -> (BridgeView, Polled) {
        match self.queue {
            Some(queue) if queue.len() > 0 => (
                BridgeView { queue: Some(queue.drop_first()), waker: None, ..self },
                Polled::Ready(queue.first()),
            ),
            _ => (BridgeView { waker: Some(waker), ..self }, Polled::Pending),
        }
    }

    /// The bridge after one poll by the consumer, and what the poll gave: the
    /// oldest byte at once where there is one, and else what parking gives.
    pub open spec fn poll(self, waker: Waker) -> (BridgeView, Polled) {
        match self.try_next() {
            (taken, Some(byte)) => (taken, Polled::Ready(byte)),
            (same, None) => same.park(waker),
        }
    }
}

/// The state that the interrupt handler and the consumer share: the queue,
/// once it is made, and the slot for the consumer's waker.
pub struct ScancodeQueue {
    queue: Option<ArrayQueue<u8>>,
    slot: AtomicWaker,
}

impl View for ScancodeQueue {
    type V = BridgeView;

    closed spec fn view(&self) -> BridgeView {
        BridgeView {
            queue: match self.queue {
                Some(queue) => Some(queue_contents(queue)),
                None => None,
            },
            capacity: match self.queue {
                Some(queue) => queue_capacity(queue),
                None => 0,
            },
            waker: slot_waker(self.slot),
        }
    }
}

impl ScancodeQueue {
    /// The bridge as it is at boot: no queue yet, no waker.
    pub fn uninit() -> (bridge: ScancodeQueue)
        ensures
            bridge@ == (BridgeView { queue: None, capacity: 0, waker: None }),
    {
        ScancodeQueue { queue: None, slot: slot_new() }
    }

    /// Whether the queue has been made.
    pub fn is_initialized(&self) -> (made: bool)
        ensures
            made == (self@.queue is Some),
    {
        self.queue.is_some()
    }

    /// Takes the oldest byte out of the queue, if there is one, and leaves the
    /// waker slot alone.
    pub fn try_next(&mut self) -> (byte: Option<u8>)
        ensures
            (final(self)@, byte) == old(self)@.try_next(),
    {
        match &mut self.queue {
            Some(queue) => queue_pop(queue),
            None => None,
        }
    }

    /// Registers `waker` in place of any that was registered, then looks into
    /// the queue once more. A byte that came in since the consumer last looked
    /// is taken now, and the slot is cleared; so no byte waits in the queue
    /// while the consumer sleeps.
    pub fn park(&mut self, waker: &Waker) -> (polled: Polled)
        ensures
            (final(self)@, polled) == old(self)@.park(*waker),
    {
        slot_register(&mut self.slot, waker);
        match self.try_next() {
            Some(scancode) => {
                slot_take(&mut self.slot);
                Polled::Ready(scancode)
            },
            None => Polled::Pending,
        }
    }
}

/// Hands a scancode from the keyboard interrupt to the consumer.
///
/// The byte goes to the back of the queue, and the waker that the consumer
/// left, if any, is woken and leaves the slot. If the queue is full or not yet
/// made the byte is dropped and nothing changes. Either way the call returns
/// at once.
pub fn add_scancode(bridge: &mut ScancodeQueue, scancode: u8) -> (outcome: PushOutcome)
    ensures
        (final(bridge)@, outcome) == old(bridge)@.push(scancode),
{
    match &mut bridge.queue {
        Some(queue) => {
            if queue_push(queue, scancode) {
                slot_wake(&mut bridge.slot);
                PushOutcome::Queued
            } else {
                PushOutcome::QueueFull
            }
        },
        None => PushOutcome::Uninitialized,
    }
}

/// The consumer's end of the bridge: the scancodes in the order in which the
/// keyboard sent them. There is one consumer; making the stream makes the
/// queue.
pub struct ScancodeStream {
    _private: (),
}

impl ScancodeStream {
    /// Makes the queue, empty and of capacity [`SCANCODE_QUEUE_CAPACITY`], and
    /// the stream that reads from it. The queue is made once: a bridge that
    /// has one is not taken.
    pub fn new(bridge: &mut ScancodeQueue) -> (stream: ScancodeStream)
        requires
            old(bridge)@.queue is None,
        ensures
            final(bridge)@ == (BridgeView {
                queue: Some(Seq::empty()),
                capacity: SCANCODE_QUEUE_CAPACITY as nat,
                ..old(bridge)@
            }),
    {
        bridge.queue = Some(queue_new(SCANCODE_QUEUE_CAPACITY));
        ScancodeStream { _private: () }
    }

    /// Polls for the next scancode: the oldest byte of the queue if there is
    /// one, and else `Pending`, with `waker` registered to be woken by the
    /// next push.
    pub fn poll_next(&mut self, bridge: &mut ScancodeQueue, waker: &Waker) -> (polled: Polled)
        requires
            old(bridge)@.queue is Some,
        ensures
            (final(bridge)@, polled) == old(bridge)@.poll(*waker),
    {
        // fast path
        if let Some(scancode) = bridge.try_next() {
            return Polled::Ready(scancode);
        }
        bridge.park(waker)
    }
}

impl BridgeView {
    /// The bridge after `bytes` have been pushed, one after another.
    pub open spec fn push_all(self, bytes: Seq<u8>) -> BridgeView
        decreases bytes.len(),
    {
        if bytes.len() == 0 {
            self
        } else {
            self.push(bytes[0]).0.push_all(bytes.drop_first())
        }
    }

    /// The bridge after `count` polls with `waker`, and what each poll gave.
    pub open spec fn poll_times(self, waker: Waker, count: nat) -> (BridgeView, Seq<Polled>)
        decreases count,
    {
        if count == 0 {
            (self, Seq::empty())
        } else {
            let (next, polled) = self.poll(waker);
            let (last, rest) = next.poll_times(waker, (count - 1) as nat);
            (last, seq![polled] + rest)
        }
    }

    /// How many more bytes the queue takes.
    pub open spec fn room(self) -> nat {
        match self.queue {
            Some(queue) if queue.len() <= self.capacity => (self.capacity - queue.len()) as nat,
            _ => 0,
        }
    }
}

/// Of the bytes pushed, the queue takes those for which it has room, in the
/// order in which they came, behind what it held; the bytes that come after
/// the room is used up are dropped, each and every one.
pub proof fn lemma_queue_keeps_what_fits(bridge: BridgeView, bytes: Seq<u8>)
    requires
        bridge.queue is Some,
    ensures
        bridge.push_all(bytes).queue == Some(
            bridge.queue.unwrap() + bytes.take(
                if bytes.len() <= bridge.room() {
                    bytes.len() as int
                } else {
                    bridge.room() as int
                },
            ),
        ),
        bridge.push_all(bytes).capacity == bridge.capacity,
        forall|i: int|
            0 <= i < bytes.len() ==> #[trigger] bridge.push_all(bytes.take(i)).push(bytes[i]).1
                == if i < bridge.room() {
                PushOutcome::Queued
            } else {
                PushOutcome::QueueFull
            },
    decreases bytes.len(),
{
    let queue = bridge.queue.unwrap();
    let fits = if bytes.len() <= bridge.room() {
        bytes.len() as int
    } else {
        bridge.room() as int
    };
    if bytes.len() == 0 {
        assert(queue + bytes.take(fits) =~= queue);
    } else {
        let rest = bytes.drop_first();
        let next = bridge.push(bytes[0]).0;
        lemma_queue_keeps_what_fits(next, rest);
        let rest_fits = if rest.len() <= next.room() {
            rest.len() as int
        } else {
            next.room() as int
        };
        if bridge.room() > 0 {
            assert(next.queue.unwrap() + rest.take(rest_fits) =~= queue + bytes.take(fits));
        } else {
            assert(rest.take(rest_fits) =~= bytes.take(fits));
        }
        assert forall|i: int| 0 <= i < bytes.len() implies #[trigger] bridge.push_all(
            bytes.take(i),
        ).push(bytes[i]).1 == if i < bridge.room() {
            PushOutcome::Queued
        } else {
            PushOutcome::QueueFull
        } by {
            if i == 0 {
                assert(bytes.take(0).len() == 0);
            } else {
                assert(bytes.take(i)[0] == bytes[0]);
                assert(bytes.take(i).drop_first() =~= rest.take(i - 1));
                assert(bytes[i] == rest[i - 1]);
                assert(bridge.push_all(bytes.take(i)) == next.push_all(rest.take(i - 1)));
            }
        }
    }
}

/// Polls take the bytes out in the order in which they went in: as many polls
/// as the queue holds bytes, or fewer, give its oldest bytes, oldest first,
/// and leave the rest and the waker slot as they were.
pub proof fn lemma_polls_take_oldest_first(bridge: BridgeView, waker: Waker, count: nat)
    requires
        bridge.queue is Some,
        count <= bridge.queue.unwrap().len(),
    ensures
        bridge.poll_times(waker, count).0 == (BridgeView {
            queue: Some(bridge.queue.unwrap().skip(count as int)),
            ..bridge
        }),
        bridge.poll_times(waker, count).1 == Seq::new(
            count,
            |i: int| Polled::Ready(bridge.queue.unwrap()[i]),
        ),
    decreases count,
{
    let queue = bridge.queue.unwrap();
    if count == 0 {
        assert(queue.skip(0) =~= queue);
        assert(bridge.poll_times(waker, count).1 =~= Seq::new(
            count,
            |i: int| Polled::Ready(queue[i]),
        ));
    } else {
        let (next, polled) = bridge.poll(waker);
        lemma_polls_take_oldest_first(next, waker, (count - 1) as nat);
        assert(queue.drop_first().skip(count - 1) =~= queue.skip(count as int));
        assert(bridge.poll_times(waker, count).1 =~= Seq::new(
            count,
            |i: int| Polled::Ready(queue[i]),
        ));
    }
}

/// A byte that is pushed while the consumer is parked reaches the consumer:
/// the poll of an empty queue leaves the waker, the push wakes that waker and
/// empties the slot, and the next poll gives the byte and leaves the queue
/// empty again.
pub proof fn lemma_push_wakes_parked_consumer(
    bridge: BridgeView,
    waker: Waker,
    byte: u8,
    again: Waker,
)
    requires
        bridge.queue == Some(Seq::<u8>::empty()),
        bridge.capacity > 0,
    ensures
        ({
            let (parked, first) = bridge.poll(waker);
            let (pushed, outcome) = parked.push(byte);
            let (last, second) = pushed.poll(again);
            &&& first == Polled::Pending
            &&& parked.waker == Some(waker)
            &&& outcome == PushOutcome::Queued
            &&& parked.woken_by_push() == Some(waker)
            &&& pushed.waker is None
            &&& second == Polled::Ready(byte)
            &&& last == (BridgeView { waker: None, ..bridge })
        }),
{
    let (parked, first) = bridge.poll(waker);
    let (pushed, outcome) = parked.push(byte);
    assert(pushed.queue.unwrap() =~= seq![byte]);
    assert(seq![byte].drop_first() =~= Seq::<u8>::empty());
}

/// A byte that is pushed after the consumer found the queue empty and before
/// it registered its waker is not lost: the look into the queue that follows
/// the registration finds it, the consumer takes it at once, and no waker
/// stays behind.
pub proof fn lemma_push_before_parking_is_found(bridge: BridgeView, waker: Waker, byte: u8)
    requires
        bridge.queue == Some(Seq::<u8>::empty()),
        bridge.capacity > 0,
    ensures
        ({
            let (looked, found) = bridge.try_next();
            let (pushed, outcome) = looked.push(byte);
            let (last, polled) = pushed.park(waker);
            &&& found is None
            &&& outcome == PushOutcome::Queued
            &&& polled == Polled::Ready(byte)
            &&& last == (BridgeView { waker: None, ..bridge })
        }),
{
    let (looked, found) = bridge.try_next();
    let (pushed, outcome) = looked.push(byte);
    assert(pushed.queue.unwrap() =~= seq![byte]);
    assert(seq![byte].drop_first() =~= Seq::<u8>::empty());
}

} // verus!
