use rust_os::task::keyboard::{
    add_scancode, Polled, PushOutcome, ScancodeQueue, ScancodeStream, SCANCODE_QUEUE_CAPACITY,
};
use std::sync::atomic::{AtomicUsize, Ordering};
use std::sync::Arc;
use std::task::{Wake, Waker};

/// Counts how often it was woken.
struct Bell {
    rings: AtomicUsize,
}

impl Wake for Bell {
    fn wake(self: Arc<Self>) {
        self.rings.fetch_add(1, Ordering::SeqCst);
    }
}

fn bell() -> (Arc<Bell>, Waker) {
    let bell = Arc::new(Bell { rings: AtomicUsize::new(0) });
    let waker = Waker::from(bell.clone());
    (bell, waker)
}

fn rings(bell: &Arc<Bell>) -> usize {
    bell.rings.load(Ordering::SeqCst)
}

#[test]
fn capacity_is_one_hundred() {
    assert_eq!(SCANCODE_QUEUE_CAPACITY, 100);
}

#[test]
fn push_before_the_queue_is_made_is_dropped() {
    let mut bridge = ScancodeQueue::uninit();
    assert!(!bridge.is_initialized());
    assert_eq!(add_scancode(&mut bridge, 0x1E), PushOutcome::Uninitialized);
    assert!(!bridge.is_initialized());
    let mut stream = ScancodeStream::new(&mut bridge);
    assert!(bridge.is_initialized());
    let (_, waker) = bell();
    assert_eq!(stream.poll_next(&mut bridge, &waker), Polled::Pending);
}

#[test]
fn scancodes_come_out_in_the_order_they_went_in() {
    let mut bridge = ScancodeQueue::uninit();
    let mut stream = ScancodeStream::new(&mut bridge);
    let (_, waker) = bell();
    for byte in [0x10u8, 0x90, 0x1E, 0x9E, 0x10] {
        assert_eq!(add_scancode(&mut bridge, byte), PushOutcome::Queued);
    }
    for byte in [0x10u8, 0x90, 0x1E, 0x9E, 0x10] {
        assert_eq!(stream.poll_next(&mut bridge, &waker), Polled::Ready(byte));
    }
    assert_eq!(stream.poll_next(&mut bridge, &waker), Polled::Pending);
}

#[test]
fn the_101st_byte_is_dropped_and_the_first_100_stay_in_order() {
    let mut bridge = ScancodeQueue::uninit();
    let mut stream = ScancodeStream::new(&mut bridge);
    for i in 0..100u8 {
        assert_eq!(add_scancode(&mut bridge, i), PushOutcome::Queued);
    }
    assert_eq!(add_scancode(&mut bridge, 100), PushOutcome::QueueFull);
    let (_, waker) = bell();
    for i in 0..100u8 {
        assert_eq!(stream.poll_next(&mut bridge, &waker), Polled::Ready(i));
    }
    assert_eq!(stream.poll_next(&mut bridge, &waker), Polled::Pending);
}

#[test]
fn a_full_queue_takes_bytes_again_once_one_has_left() {
    let mut bridge = ScancodeQueue::uninit();
    let mut stream = ScancodeStream::new(&mut bridge);
    let (_, waker) = bell();
    for i in 0..100u8 {
        assert_eq!(add_scancode(&mut bridge, i), PushOutcome::Queued);
    }
    assert_eq!(add_scancode(&mut bridge, 200), PushOutcome::QueueFull);
    assert_eq!(add_scancode(&mut bridge, 201), PushOutcome::QueueFull);
    assert_eq!(stream.poll_next(&mut bridge, &waker), Polled::Ready(0));
    assert_eq!(add_scancode(&mut bridge, 202), PushOutcome::Queued);
    assert_eq!(add_scancode(&mut bridge, 203), PushOutcome::QueueFull);
    for i in 1..100u8 {
        assert_eq!(stream.poll_next(&mut bridge, &waker), Polled::Ready(i));
    }
    assert_eq!(stream.poll_next(&mut bridge, &waker), Polled::Ready(202));
    assert_eq!(stream.poll_next(&mut bridge, &waker), Polled::Pending);
}

#[test]
fn a_push_wakes_the_parked_consumer_and_delivers_the_byte() {
    let mut bridge = ScancodeQueue::uninit();
    let mut stream = ScancodeStream::new(&mut bridge);
    let (bell, waker) = bell();

    assert_eq!(stream.poll_next(&mut bridge, &waker), Polled::Pending);
    assert_eq!(rings(&bell), 0);

    assert_eq!(add_scancode(&mut bridge, 0x2A), PushOutcome::Queued);
    assert_eq!(rings(&bell), 1);

    assert_eq!(stream.poll_next(&mut bridge, &waker), Polled::Ready(0x2A));
    // the byte came once, and the consumer is told so
    assert_eq!(stream.poll_next(&mut bridge, &waker), Polled::Pending);
    assert_eq!(rings(&bell), 1);
}

#[test]
fn a_push_without_a_parked_consumer_wakes_nobody() {
    let mut bridge = ScancodeQueue::uninit();
    let mut stream = ScancodeStream::new(&mut bridge);
    let (bell, waker) = bell();
    assert_eq!(add_scancode(&mut bridge, 1), PushOutcome::Queued);
    assert_eq!(rings(&bell), 0);
    assert_eq!(stream.poll_next(&mut bridge, &waker), Polled::Ready(1));
    assert_eq!(rings(&bell), 0);
}

#[test]
fn a_waker_is_woken_once_for_a_run_of_pushes() {
    let mut bridge = ScancodeQueue::uninit();
    let mut stream = ScancodeStream::new(&mut bridge);
    let (bell, waker) = bell();
    assert_eq!(stream.poll_next(&mut bridge, &waker), Polled::Pending);
    assert_eq!(add_scancode(&mut bridge, 1), PushOutcome::Queued);
    assert_eq!(add_scancode(&mut bridge, 2), PushOutcome::Queued);
    assert_eq!(add_scancode(&mut bridge, 3), PushOutcome::Queued);
    assert_eq!(rings(&bell), 1);
    assert_eq!(stream.poll_next(&mut bridge, &waker), Polled::Ready(1));
    assert_eq!(stream.poll_next(&mut bridge, &waker), Polled::Ready(2));
    assert_eq!(stream.poll_next(&mut bridge, &waker), Polled::Ready(3));
}

#[test]
fn the_last_registration_wins() {
    let mut bridge = ScancodeQueue::uninit();
    let mut stream = ScancodeStream::new(&mut bridge);
    let (first_bell, first) = bell();
    let (second_bell, second) = bell();
    assert_eq!(stream.poll_next(&mut bridge, &first), Polled::Pending);
    assert_eq!(stream.poll_next(&mut bridge, &second), Polled::Pending);
    assert_eq!(add_scancode(&mut bridge, 9), PushOutcome::Queued);
    assert_eq!(rings(&first_bell), 0);
    assert_eq!(rings(&second_bell), 1);
}

#[test]
fn a_push_between_the_empty_check_and_the_registration_is_not_lost() {
    let mut bridge = ScancodeQueue::uninit();
    let _stream = ScancodeStream::new(&mut bridge);
    let (bell, waker) = bell();

    // the consumer looks and finds nothing
    assert_eq!(bridge.try_next(), None);
    // the interrupt fires before the consumer has registered
    assert_eq!(add_scancode(&mut bridge, 0x39), PushOutcome::Queued);
    assert_eq!(rings(&bell), 0);
    // the consumer registers and looks again
    assert_eq!(bridge.park(&waker), Polled::Ready(0x39));

    // the slot was cleared: the next push rings no stale waker
    assert_eq!(add_scancode(&mut bridge, 0x3A), PushOutcome::Queued);
    assert_eq!(rings(&bell), 0);
    assert_eq!(bridge.try_next(), Some(0x3A));
    assert_eq!(bridge.try_next(), None);
}

#[test]
fn a_dropped_byte_wakes_nobody() {
    let mut bridge = ScancodeQueue::uninit();
    let mut stream = ScancodeStream::new(&mut bridge);
    let (bell, waker) = bell();
    for i in 0..100u8 {
        assert_eq!(add_scancode(&mut bridge, i), PushOutcome::Queued);
    }
    // park on a full queue cannot happen through poll_next; register by hand
    assert_eq!(stream.poll_next(&mut bridge, &waker), Polled::Ready(0));
    assert_eq!(add_scancode(&mut bridge, 100), PushOutcome::Queued);
    assert_eq!(add_scancode(&mut bridge, 101), PushOutcome::QueueFull);
    assert_eq!(rings(&bell), 0);
}

#[test]
fn try_next_on_a_bridge_without_a_queue_gives_nothing() {
    let mut bridge = ScancodeQueue::uninit();
    assert_eq!(bridge.try_next(), None);
    let (bell, waker) = bell();
    assert_eq!(bridge.park(&waker), Polled::Pending);
    assert_eq!(add_scancode(&mut bridge, 5), PushOutcome::Uninitialized);
    assert_eq!(rings(&bell), 0);
}
