//! A timer that fires once, on the second tick.

use vstd::prelude::*;

verus! {

/// The state of a timer. The first tick arrives at once and only arms the
/// timer; the tick after it runs the timeout's callback, which then is
/// spent.
#[derive(Debug, Clone, Copy, PartialEq, Eq, Structural)]
pub struct Timer {
    pub first_tick_received: bool,
    /// Whether the callback has not run yet.
    pub callback_pending: bool,
}

impl Timer {
    /// A timer that has seen no tick, with its callback still to run.
    pub fn new() -> (t: Timer)
        ensures
            !t.first_tick_received,
            t.callback_pending,
    {
        Timer { first_tick_received: false, callback_pending: true }
    }

    /// Takes a tick and says whether the callback is to run now: never on
    /// the first tick, and on a later one only if it has not run before.
    pub fn handle_tick(&mut self) -> (fire: bool)
        ensures
            final(self).first_tick_received,
            fire == (old(self).first_tick_received && old(self).callback_pending),
            final(self).callback_pending == (old(self).callback_pending && !old(self).first_tick_received),
    {
        if !self.first_tick_received {
            self.first_tick_received = true;
            false
        } else {
            let fire = self.callback_pending;
            self.callback_pending = false;
            fire
        }
    }
}

} // verus!
