//! The kernel's clock: a count of timer ticks.

use vstd::prelude::*;

verus! {

/// The ticks of the interval timer since boot. The timer interrupt counts; all
/// else reads. A reader masks interrupts while it reads, so that it sees the
/// count of one moment.
pub struct Timer {
    ticks: u128,
}

impl View for Timer {
    type V = nat;

    closed spec fn view(&self) -> nat {
        self.ticks as nat
    }
}

impl Timer {
    /// A clock at 0.
    pub fn new() -> (timer: Timer)
        ensures
            timer@ == 0,
    {
        Timer { ticks: 0 }
    }

    /// Counts one tick. The count only ever grows; a clock at the largest
    /// count that it can hold takes no further tick.
    pub fn tick(&mut self)
        requires
            old(self)@ < u128::MAX,
        ensures
            final(self)@ == old(self)@ + 1,
    {
        self.ticks += 1;
    }

    /// The ticks counted so far.
    pub fn read(&self) -> (ticks: u128)
        ensures
            ticks == self@,
    {
        self.ticks
    }
}

/// The ticks that `timer` has counted so far.
pub fn read_timer(timer: &Timer) -> (time: u128)
    ensures
        time == timer@,
{
    timer.read()
}

} // verus!
