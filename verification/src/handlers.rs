//! The states of small message handlers: each takes a message and says what
//! is to be sent, and the program around it does the sending.

use crate::report::{message_line, prepare_msg};
use vstd::prelude::*;

verus! {

/// How many balls each side of a ping-pong game receives.
pub const ROUNDS: u32 = 5;

/// One side of a ping-pong game.
#[derive(Debug, Clone, Copy, PartialEq, Eq, Structural)]
pub struct PingPong {
    pub received_msgs: u32,
    /// Whether this side serves.
    pub first: bool,
}

impl PingPong {
    /// A side that has received nothing yet.
    pub fn new(first: bool) -> (p: PingPong)
        ensures
            p.received_msgs == 0,
            p.first == first,
    {
        PingPong { received_msgs: 0, first }
    }

    /// Takes the introduction to the other side and says whether the first
    /// ball is to be sent: only the side that serves sends it.
    pub fn on_init(&self) -> (send_ball: bool)
        ensures
            send_ball == self.first,
    {
        self.first
    }

    /// Takes a ball. Returns the line to log, which names the side and the
    /// number of balls received before this one, and whether the ball is to
    /// be sent back: it is while fewer than `ROUNDS` balls have been
    /// received.
    pub fn on_ball(&mut self, name: &str) -> (out: (String, bool))
        requires
            old(self).received_msgs < u32::MAX,
        ensures
            out.0@ == message_line(name@, old(self).received_msgs as nat),
            final(self).received_msgs == old(self).received_msgs + 1,
            final(self).first == old(self).first,
            out.1 == (old(self).received_msgs + 1 < ROUNDS),
    {
        let line = prepare_msg(name, self.received_msgs);
        self.received_msgs = self.received_msgs + 1;
        (line, self.received_msgs < ROUNDS)
    }
}

/// What a handler that counts to five does with `msg`: at five it reports
/// (`None`), below or above it sends itself the next number.
pub fn count_to_five_step(msg: u8) -> (r: Option<u8>)
    requires
        msg < 255,
    ensures
        msg == 5 ==> r is None,
        msg != 5 ==> r == Some((msg + 1) as u8),
{
    if msg == 5 {
        None
    } else {
        Some(msg + 1)
    }
}

/// A handler that reports a number on every tick and then adds one to it.
#[derive(Debug, Clone, Copy, PartialEq, Eq, Structural)]
pub struct Counter {
    pub num: u8,
}

impl Counter {
    /// A counter at zero.
    pub fn new() -> (c: Counter)
        ensures
            c.num == 0,
    {
        Counter { num: 0 }
    }

    /// Takes a tick: returns the number to report and moves on to the next.
    pub fn counter_tick(&mut self) -> (sent: u8)
        requires
            old(self).num < 255,
        ensures
            sent == old(self).num,
            final(self).num == old(self).num + 1,
    {
        let sent = self.num;
        self.num = self.num + 1;
        sent
    }
}

/// A counter that sleeps before it reports.
#[derive(Debug, Clone, Copy, PartialEq, Eq, Structural)]
pub struct SleepyCounter {
    pub num: u8,
    pub sleep_in_millis: u64,
}

impl SleepyCounter {
    /// A counter at zero that sleeps `sleep_in_millis` before each report.
    pub fn new(sleep_in_millis: u64) -> (c: SleepyCounter)
        ensures
            c.num == 0,
            c.sleep_in_millis == sleep_in_millis,
    {
        SleepyCounter { num: 0, sleep_in_millis }
    }

    /// Takes a tick, after the sleep: returns the number to report and moves
    /// on to the next. The time to sleep stays as it is.
    pub fn counter_tick(&mut self) -> (sent: u8)
        requires
            old(self).num < 255,
        ensures
            sent == old(self).num,
            final(self).num == old(self).num + 1,
            final(self).sleep_in_millis == old(self).sleep_in_millis,
    {
        let sent = self.num;
        self.num = self.num + 1;
        sent
    }
}

} // verus!
