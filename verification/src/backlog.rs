//! Requests that wait for their sector: a sector carries one operation at a
//! time, and what arrives meanwhile is served in the order of arrival.

use crate::command::ClientRegisterCommand;
use vstd::prelude::*;

verus! {

/// A request that waits, with the number by which the program knows the
/// client that sent it.
#[derive(Debug, Clone, PartialEq, Eq)]
pub struct Waiting {
    pub request: ClientRegisterCommand,
    pub client: u64,
}

/// The requests that wait, the oldest first.
#[derive(Debug, Clone, PartialEq, Eq)]
pub struct Backlog {
    pub waiting: Vec<Waiting>,
}

/// The place of the oldest request for `sector_idx` from place `from` on,
/// or -1 if none waits.
pub open spec fn first_for(queue: Seq<Waiting>, sector_idx: u64, from: int) -> int
    decreases queue.len() - from,
{
    if from < 0 || from >= queue.len() {
        -1
    } else if queue[from].request.header.sector_idx == sector_idx {
        from
    } else {
        first_for(queue, sector_idx, from + 1)
    }
}

impl Backlog {
    /// No request waits.
    pub fn new() -> (b: Backlog)
        ensures
            b.waiting@.len() == 0,
    {
        Backlog { waiting: Vec::new() }
    }

    /// Puts a request behind all that wait.
    pub fn push(&mut self, request: ClientRegisterCommand, client: u64)
        ensures
            final(self).waiting@ == old(self).waiting@.push(Waiting { request, client }),
    {
        self.waiting.push(Waiting { request, client });
    }

    /// Takes out the request that is to run next on `sector_idx`, now that
    /// the sector is free: the oldest that waits for it. The others stay, in
    /// their order. `None`, and no change, where none waits for it.
    pub fn take_next(&mut self, sector_idx: u64) -> (r: Option<Waiting>)
        ensures
            ({
                let k = first_for(old(self).waiting@, sector_idx, 0);
                if k < 0 {
                    r is None && final(self).waiting@ == old(self).waiting@
                } else {
                    &&& 0 <= k < old(self).waiting@.len()
                    &&& r == Some(old(self).waiting@[k])
                    &&& final(self).waiting@ == old(self).waiting@.remove(k)
                }
            }),
    {
        let mut i: usize = 0;
        while i < self.waiting.len()
            invariant
                i <= self.waiting@.len(),
                self.waiting@ == old(self).waiting@,
                first_for(self.waiting@, sector_idx, 0) == first_for(
                    self.waiting@,
                    sector_idx,
                    i as int,
                ),
            decreases self.waiting@.len() - i,
        {
            if self.waiting[i].request.header.sector_idx == sector_idx {
                return Some(self.waiting.remove(i));
            }
            i += 1;
        }
        None
    }
}

} // verus!
