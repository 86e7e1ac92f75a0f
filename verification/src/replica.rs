//! One process of the register: its disk, and the coordinators of the
//! operations that clients asked it to carry out.
//!
//! A replica takes decoded commands and says what is to be sent. It answers
//! `ReadProc` and `WriteProc` from its disk, hands `Value` and `Ack` to the
//! coordinator of the sector they name, and starts a coordinator for a
//! client's request. Commands whose tag was not valid are not acted upon: a
//! client is told so, a replica's message is dropped. The operation that a
//! coordinator has in flight is noted on the disk, so that it can be taken
//! up again after a restart.

use crate::command::{
    ClientRegisterCommand, ClientRegisterCommandContent, ClientResponse, Message, Rejection,
    Reply, SystemRegisterCommand, SystemRegisterCommandContent, SECTOR_SIZE,
};
use crate::register::{read_proc_of, resumption_of, undecided, Coordinator};
use crate::storage::{accepted, initial_record, Record, StableStorage};
use vstd::prelude::*;

verus! {

/// What is to be done with the outcome of a command.
#[derive(Debug, Clone, PartialEq, Eq)]
pub enum Outgoing {
    /// Nothing is sent.
    Nothing,
    /// The sector has an operation in flight: the request has to wait.
    Busy,
    /// To be sent to every process, this one included.
    Broadcast(SystemRegisterCommand),
    /// To be sent to the process of rank `to`.
    Reply { to: u8, message: SystemRegisterCommand },
    /// To be sent to the client.
    Respond(ClientResponse),
}

/// What is to be sent, with sector contents as byte sequences.
pub enum Sent {
    Nothing,
    Busy,
    Broadcast(Message),
    Reply { to: u8, message: Message },
    Respond(Reply),
}

impl View for Outgoing {
    type V = Sent;

    open spec fn view(&self) -> Sent {
        match self {
            Outgoing::Nothing => Sent::Nothing,
            Outgoing::Busy => Sent::Busy,
            Outgoing::Broadcast(m) => Sent::Broadcast(m@),
            Outgoing::Reply { to, message } => Sent::Reply { to: *to, message: message@ },
            Outgoing::Respond(r) => Sent::Respond(r@),
        }
    }
}

/// A broadcast, or nothing.
pub open spec fn broadcast_or_nothing(m: Option<Message>) -> Sent {
    match m {
        Some(m) => Sent::Broadcast(m),
        None => Sent::Nothing,
    }
}

/// A response, or nothing.
pub open spec fn respond_or_nothing(r: Option<Reply>) -> Sent {
    match r {
        Some(r) => Sent::Respond(r),
        None => Sent::Nothing,
    }
}

/// What is broadcast, if anything is.
pub open spec fn broadcast_in(s: Sent) -> Option<Message> {
    match s {
        Sent::Broadcast(m) => Some(m),
        _ => None,
    }
}

/// What the client is told, if anything.
pub open spec fn response_in(s: Sent) -> Option<Reply> {
    match s {
        Sent::Respond(r) => Some(r),
        _ => None,
    }
}

/// The response that refuses `request` for `reason`.
pub open spec fn refusal(request: Message, reason: Rejection) -> Reply {
    match request {
        Message::Write { request_identifier, .. } => Reply::Rejected {
            request_identifier,
            was_write: true,
            reason,
        },
        Message::Read { request_identifier, .. } => Reply::Rejected {
            request_identifier,
            was_write: false,
            reason,
        },
        _ => arbitrary(),
    }
}

/// One process of the register.
#[derive(Debug, Clone, PartialEq, Eq)]
pub struct Replica {
    pub self_rank: u8,
    pub n_processes: u8,
    pub storage: StableStorage,
    /// For each sector its coordinator, once a client has asked for an
    /// operation on it.
    pub coordinators: Vec<Option<Coordinator>>,
    /// For each sector whether it is out of service: its disk failed, and
    /// nothing is answered for it until the process is started again.
    pub unserved: Vec<bool>,
}

fn refuse(request: &ClientRegisterCommand, reason: Rejection) -> (out: Outgoing)
    ensures
        out@ == Sent::Respond(refusal(request@, reason)),
{
    let was_write = match &request.content {
        ClientRegisterCommandContent::Read => false,
        ClientRegisterCommandContent::Write { .. } => true,
    };
    Outgoing::Respond(
        ClientResponse::Rejected {
            request_identifier: request.header.request_identifier,
            was_write,
            reason,
        },
    )
}

impl Replica {
    /// The coordinator of sector `i`, if there is one, agrees with the
    /// replica on the ranks, and the disk notes its operation exactly while
    /// it is in flight. A sector without a coordinator may have an operation
    /// noted: one that was in flight when the process last stopped.
    pub open spec fn slot_ok(&self, i: int) -> bool {
        match self.coordinators@[i] {
            Some(c) => {
                &&& c.wf()
                &&& c.self_rank == self.self_rank
                &&& c.n_processes == self.n_processes
                &&& if c.phase is Idle {
                    self.storage.pending@[i] is None
                } else {
                    c.op.sector_idx == i && self.storage.pending_at(i) == Some(c.op@)
                }
            },
            None => true,
        }
    }

    /// The parts of the replica agree with each other.
    pub open spec fn wf(&self) -> bool {
        &&& 1 <= self.self_rank <= self.n_processes
        &&& self.storage.wf()
        &&& self.coordinators@.len() == self.storage.n_sectors()
        &&& self.unserved@.len() == self.storage.n_sectors()
        &&& forall|i: int| 0 <= i < self.coordinators@.len() ==> #[trigger] self.slot_ok(i)
    }

    /// Whether the coordinator of sector `i`, if there is one, agrees with
    /// the replica and the disk.
    fn slot_is_valid(&self, i: usize) -> (ok: bool)
        requires
            i < self.coordinators@.len(),
            self.storage.wf(),
            self.coordinators@.len() == self.storage.n_sectors(),
        ensures
            ok == self.slot_ok(i as int),
    {
        match &self.coordinators[i] {
            None => true,
            Some(c) => {
                if !c.is_valid() || c.self_rank != self.self_rank || c.n_processes
                    != self.n_processes {
                    return false;
                }
                match &self.storage.pending[i] {
                    None => !c.is_busy(),
                    Some(op) => c.is_busy() && c.op.sector_idx == i as u64 && op.same_as(&c.op),
                }
            },
        }
    }

    /// Whether the replica is well formed.
    pub fn is_valid(&self) -> (ok: bool)
        ensures
            ok == self.wf(),
    {
        if self.self_rank < 1 || self.self_rank > self.n_processes || !self.storage.is_valid() {
            return false;
        }
        let n = self.storage.sectors.len();
        if self.coordinators.len() != n || self.unserved.len() != n {
            return false;
        }
        let mut i: usize = 0;
        while i < n
            invariant
                i <= n,
                n == self.coordinators@.len(),
                n == self.storage.n_sectors(),
                self.storage.wf(),
                forall|k: int| 0 <= k < i ==> #[trigger] self.slot_ok(k),
            decreases n - i,
        {
            if !self.slot_is_valid(i) {
                return false;
            }
            i += 1;
        }
        true
    }

    /// Whether sector `sector_idx` is out of service.
    pub fn is_unserved(&self, sector_idx: u64) -> (yes: bool)
        requires
            self.wf(),
        ensures
            yes == (sector_idx < self.storage.n_sectors() && self.unserved@[sector_idx as int]),
    {
        match self.storage.slot(sector_idx) {
            Some(at) => self.unserved[at],
            None => false,
        }
    }

    /// Takes sector `sector_idx` out of service, after its disk failed: from
    /// now on nothing is answered for it, and nothing of it changes. Says
    /// whether the disk has that sector.
    pub fn mark_unserved(&mut self, sector_idx: u64) -> (done: bool)
        requires
            old(self).wf(),
        ensures
            final(self).wf(),
            final(self).self_rank == old(self).self_rank,
            final(self).n_processes == old(self).n_processes,
            final(self).storage == old(self).storage,
            final(self).coordinators == old(self).coordinators,
            done == (sector_idx < old(self).storage.n_sectors()),
            done ==> final(self).unserved@ == old(self).unserved@.update(sector_idx as int, true),
            !done ==> *final(self) == *old(self),
    {
        match self.storage.slot(sector_idx) {
            Some(at) => {
                self.unserved.set(at, true);
                proof {
                    assert forall|i: int| 0 <= i < self.coordinators@.len() implies #[trigger]
                        self.slot_ok(i) by {
                        assert(old(self).slot_ok(i));
                    }
                }
                true
            },
            None => false,
        }
    }

    /// Whether an operation on sector `i` is in flight, or was when the
    /// process last stopped and has not been taken up again.
    pub open spec fn busy_at(&self, i: int) -> bool {
        match self.coordinators@[i] {
            Some(c) => !(c.phase is Idle),
            None => self.storage.pending@[i] is Some,
        }
    }

    /// A replica of rank `self_rank` among `n_processes` over the disk
    /// `storage`, with no coordinator yet. `None` unless
    /// `1 <= self_rank <= n_processes`.
    pub fn new(self_rank: u8, n_processes: u8, storage: StableStorage) -> (r: Option<Replica>)
        requires
            storage.wf(),
        ensures
            r is Some <==> 1 <= self_rank <= n_processes,
            r matches Some(replica) ==> replica.wf() && replica.self_rank == self_rank
                && replica.n_processes == n_processes && replica.storage == storage
                && (forall|i: int|
                0 <= i < storage.n_sectors() ==> replica.coordinators@[i] is None) && (forall|
                i: int,
            | 0 <= i < storage.n_sectors() ==> !replica.unserved@[i]),
    {
        if self_rank < 1 || self_rank > n_processes {
            return None;
        }
        let n = storage.sectors.len();
        let mut coordinators: Vec<Option<Coordinator>> = Vec::new();
        let mut unserved: Vec<bool> = Vec::new();
        let mut i: usize = 0;
        while i < n
            invariant
                i <= n,
                coordinators@.len() == i,
                unserved@.len() == i,
                forall|k: int| 0 <= k < i ==> coordinators@[k] is None,
                forall|k: int| 0 <= k < i ==> !unserved@[k],
            decreases n - i,
        {
            coordinators.push(None);
            unserved.push(false);
            i += 1;
        }
        Some(Replica { self_rank, n_processes, storage, coordinators, unserved })
    }

    /// Takes up again the operation on `sector_idx` that was in flight when
    /// the process last stopped, under the identifier it had.
    ///
    /// Where the sector has no coordinator yet and the disk notes an
    /// operation on it, a coordinator is made for it: in the write-back
    /// phase if the record to write had been chosen, else in the read phase;
    /// the message to send to every process is returned. A note that names
    /// another sector, or holds data of the wrong size, is removed. In every
    /// other case nothing changes and nothing is sent.
    pub fn resume_sector(&mut self, sector_idx: u64) -> (out: Outgoing)
        requires
            old(self).wf(),
        ensures
            final(self).wf(),
            final(self).same_but(old(self), sector_idx as int),
            final(self).storage.sectors == old(self).storage.sectors,
            ({
                let s = sector_idx as int;
                if s >= old(self).storage.n_sectors() || old(self).unserved@[s] || old(self).coordinators@[s] is Some {
                    *final(self) == *old(self) && out@ == Sent::Nothing
                } else {
                    match old(self).storage.pending@[s] {
                        None => *final(self) == *old(self) && out@ == Sent::Nothing,
                        Some(op) => if op.data.wf() && op.sector_idx == sector_idx {
                            &&& out@ == Sent::Broadcast(
                                resumption_of(op@, old(self).self_rank),
                            )
                            &&& final(self).storage.pending == old(self).storage.pending
                            &&& final(self).coordinators@[s] matches Some(c) && c.op@ == op@
                                && c.best@ == initial_record() && c.replied@ == Seq::new(
                                old(self).n_processes as nat,
                                |i: int| false,
                            ) && if op.decided {
                                c.phase is Writing
                            } else {
                                c.phase is Reading
                            }
                        } else {
                            &&& out@ == Sent::Nothing
                            &&& final(self).coordinators == old(self).coordinators
                            &&& final(self).storage.pending@[s] is None
                        },
                    }
                }
            }),
    {
        let at = match self.storage.slot(sector_idx) {
            Some(at) => at,
            None => {
                return Outgoing::Nothing;
            },
        };
        if self.unserved[at] || self.coordinators[at].is_some() {
            return Outgoing::Nothing;
        }
        let op = match self.storage.pending_operation(sector_idx) {
            Some(op) => op,
            None => {
                return Outgoing::Nothing;
            },
        };
        if !op.data.is_valid() || op.sector_idx != sector_idx {
            self.storage.clear_pending_operation(sector_idx);
            proof {
                assert forall|i: int| 0 <= i < self.coordinators@.len() implies #[trigger]
                    self.slot_ok(i) by {
                    assert(old(self).slot_ok(i));
                }
            }
            return Outgoing::Nothing;
        }
        let mut fresh = match Coordinator::new(self.self_rank, self.n_processes) {
            Some(c) => c,
            None => {
                return Outgoing::Nothing;
            },
        };
        match fresh.resume(op) {
            Err(_) => Outgoing::Nothing,
            Ok(message) => {
                self.coordinators.set(at, Some(fresh));
                proof {
                    assert forall|i: int| 0 <= i < self.coordinators@.len() implies #[trigger]
                        self.slot_ok(i) by {
                        if i != at {
                            assert(old(self).slot_ok(i));
                        }
                    }
                }
                Outgoing::Broadcast(message)
            },
        }
    }

    /// Every sector but `i` is as it was in `old`: its record, its
    /// coordinator and its pending operation.
    pub open spec fn same_but(&self, old: &Replica, i: int) -> bool {
        &&& self.self_rank == old.self_rank
        &&& self.n_processes == old.n_processes
        &&& self.coordinators@.len() == old.coordinators@.len()
        &&& self.storage.n_sectors() == old.storage.n_sectors()
        &&& self.unserved == old.unserved
        &&& forall|j: int|
            0 <= j < old.coordinators@.len() && j != i ==> self.coordinators@[j]
                == old.coordinators@[j] && self.storage.pending@[j] == old.storage.pending@[j]
                && self.storage.sectors@[j] == old.storage.sectors@[j]
    }

    /// Takes a client's request, decoded, with the flag that says whether
    /// its tag was valid, and a fresh identifier for the operation.
    ///
    /// A request with an invalid tag is refused with `AuthFailure`, one for
    /// a sector that the disk does not have with `InvalidSectorIndex`; one
    /// with data of the wrong size, or for a sector that is out of service,
    /// gets no answer; one for a sector with an
    /// operation in flight, or with one that has yet to be taken up again
    /// after a restart, has to wait. Nothing changes in these cases.
    /// Otherwise the sector's coordinator starts the read phase, the
    /// operation is noted on the disk, and the `ReadProc` to send to every
    /// process is returned.
    pub fn handle_client(
        &mut self,
        request: &ClientRegisterCommand,
        hmac_valid: bool,
        msg_ident: u128,
    ) -> (out: Outgoing)
        requires
            old(self).wf(),
        ensures
            final(self).wf(),
            final(self).same_but(old(self), request.header.sector_idx as int),
            final(self).storage.sectors == old(self).storage.sectors,
            ({
                let s = request.header.sector_idx as int;
                if !hmac_valid {
                    *final(self) == *old(self) && out@ == Sent::Respond(
                        refusal(request@, Rejection::AuthFailure),
                    )
                } else if s >= old(self).storage.n_sectors() {
                    *final(self) == *old(self) && out@ == Sent::Respond(
                        refusal(request@, Rejection::InvalidSectorIndex),
                    )
                } else if old(self).unserved@[s] || !request@.wf() {
                    *final(self) == *old(self) && out@ == Sent::Nothing
                } else if old(self).busy_at(s) {
                    *final(self) == *old(self) && out@ == Sent::Busy
                } else {
                    &&& out@ == Sent::Broadcast(
                        read_proc_of(undecided(request@, msg_ident), old(self).self_rank),
                    )
                    &&& final(self).storage.pending_at(s) == Some(undecided(request@, msg_ident))
                    &&& final(self).coordinators@[s] matches Some(c) && c.phase is Reading && c.op@
                        == undecided(request@, msg_ident) && c.best@ == initial_record()
                        && c.replied@ == Seq::new(
                        old(self).n_processes as nat,
                        |i: int| false,
                    )
                }
            }),
    {
        if !hmac_valid {
            return refuse(request, Rejection::AuthFailure);
        }
        let at = match self.storage.slot(request.header.sector_idx) {
            Some(at) => at,
            None => {
                return refuse(request, Rejection::InvalidSectorIndex);
            },
        };
        let valid = match &request.content {
            ClientRegisterCommandContent::Read => true,
            ClientRegisterCommandContent::Write { data } => data.is_valid(),
        };
        if self.unserved[at] || !valid {
            return Outgoing::Nothing;
        }
        let busy = match &self.coordinators[at] {
            Some(c) => c.is_busy(),
            None => self.storage.has_pending_operation(request.header.sector_idx),
        };
        if busy {
            return Outgoing::Busy;
        }
        assert(old(self).slot_ok(at as int));
        let mut fresh = match Coordinator::new(self.self_rank, self.n_processes) {
            Some(c) => c,
            None => {
                return Outgoing::Nothing;
            },
        };
        match fresh.begin(request, msg_ident) {
            Err(_) => Outgoing::Nothing,
            Ok(cmd) => {
                let op = fresh.op.duplicate();
                self.coordinators.set(at, Some(fresh));
                self.storage.record_pending_operation(op);
                proof {
                    assert forall|i: int| 0 <= i < self.coordinators@.len() implies #[trigger]
                        self.slot_ok(i) by {
                        if i != at {
                            assert(old(self).slot_ok(i));
                        }
                    }
                }
                Outgoing::Broadcast(cmd)
            },
        }
    }

    /// Sector `i` is as it was in `old`: its record, its coordinator and
    /// its pending operation.
    pub open spec fn same_at(&self, old: &Replica, i: int) -> bool {
        &&& self.coordinators@[i] == old.coordinators@[i]
        &&& self.unserved@[i] == old.unserved@[i]
        &&& self.storage.pending@[i] == old.storage.pending@[i]
        &&& self.storage.sectors@[i] == old.storage.sectors@[i]
    }

    /// Takes a replica's message, decoded, with the flag that says whether
    /// its tag was valid.
    ///
    /// A message with an invalid tag, or for a sector that the disk does
    /// not have or that is out of service, is dropped. A `ReadProc` is answered with the sector's
    /// record, and nothing changes. A `WriteProc` is offered to the sector,
    /// which takes it if and only if it is newer than what it holds, and is
    /// answered with an `Ack` either way. A `Value` or an `Ack` goes to the
    /// sector's coordinator: what it does is `value_step` or `ack_step`, and
    /// what comes of it is sent to every process, or to the client. Sectors
    /// other than the one named are never touched.
    pub fn handle_system(&mut self, cmd: SystemRegisterCommand, hmac_valid: bool) -> (out: Outgoing)
        requires
            old(self).wf(),
        ensures
            final(self).wf(),
            final(self).same_but(old(self), cmd.header.sector_idx as int),
            ({
                let s = cmd.header.sector_idx as int;
                let from = cmd.header.process_identifier;
                let ident = cmd.header.msg_ident;
                let held = old(self).storage.record_at(s);
                if !hmac_valid || s >= old(self).storage.n_sectors() || old(self).unserved@[s] {
                    *final(self) == *old(self) && out@ == Sent::Nothing
                } else {
                    match cmd@ {
                        Message::ReadProc { .. } => {
                            &&& *final(self) == *old(self)
                            &&& out@ == Sent::Reply {
                                to: from,
                                message: Message::Value {
                                    process_identifier: old(self).self_rank,
                                    msg_ident: ident,
                                    sector_idx: cmd.header.sector_idx,
                                    timestamp: held.timestamp,
                                    write_rank: held.write_rank,
                                    data: held.value,
                                },
                            }
                        },
                        Message::WriteProc { timestamp, write_rank, data, .. } => {
                            let offered = Record { timestamp, write_rank, value: data };
                            &&& final(self).coordinators == old(self).coordinators
                            &&& final(self).storage.pending == old(self).storage.pending
                            &&& if data.len() == SECTOR_SIZE {
                                &&& final(self).storage.record_at(s) == accepted(held, offered)
                                &&& out@ == Sent::Reply {
                                    to: from,
                                    message: Message::Ack {
                                        process_identifier: old(self).self_rank,
                                        msg_ident: ident,
                                        sector_idx: cmd.header.sector_idx,
                                    },
                                }
                            } else {
                                *final(self) == *old(self) && out@ == Sent::Nothing
                            }
                        },
                        Message::Value { timestamp, write_rank, data, .. } => {
                            let reply = Record { timestamp, write_rank, value: data };
                            &&& final(self).storage.sectors == old(self).storage.sectors
                            &&& out@ == broadcast_or_nothing(broadcast_in(out@))
                            &&& match old(self).coordinators@[s] {
                                Some(c) => final(self).coordinators@[s] matches Some(next)
                                    && c.value_step(&next, from, ident, reply, broadcast_in(out@)),
                                None => final(self).same_at(old(self), s) && out@ == Sent::Nothing,
                            }
                        },
                        Message::Ack { .. } => {
                            &&& final(self).storage.sectors == old(self).storage.sectors
                            &&& out@ == respond_or_nothing(response_in(out@))
                            &&& match old(self).coordinators@[s] {
                                Some(c) => final(self).coordinators@[s] matches Some(next)
                                    && c.ack_step(&next, from, ident, response_in(out@)),
                                None => final(self).same_at(old(self), s) && out@ == Sent::Nothing,
                            }
                        },
                        _ => true,
                    }
                }
            }),
    {
        if !hmac_valid {
            return Outgoing::Nothing;
        }
        let header = cmd.header;
        let at = match self.storage.slot(header.sector_idx) {
            Some(at) => at,
            None => {
                return Outgoing::Nothing;
            },
        };
        if self.unserved[at] {
            return Outgoing::Nothing;
        }
        assert(old(self).slot_ok(at as int));
        let from = header.process_identifier;
        match cmd.content {
            SystemRegisterCommandContent::ReadProc => {
                match self.storage.serve_read_proc(self.self_rank, &header) {
                    Some(message) => Outgoing::Reply { to: from, message },
                    None => Outgoing::Nothing,
                }
            },
            SystemRegisterCommandContent::WriteProc { timestamp, write_rank, data_to_write } => {
                let served = self.storage.serve_write_proc(
                    self.self_rank,
                    &header,
                    timestamp,
                    write_rank,
                    data_to_write,
                );
                proof {
                    assert forall|i: int| 0 <= i < self.coordinators@.len() implies #[trigger]
                        self.slot_ok(i) by {
                        assert(old(self).slot_ok(i));
                    }
                }
                match served {
                    Some((message, _)) => Outgoing::Reply { to: from, message },
                    None => Outgoing::Nothing,
                }
            },
            SystemRegisterCommandContent::Value { timestamp, write_rank, sector_data } => {
                let step = match &mut self.coordinators[at] {
                    Some(c) => match c.on_value(
                        from,
                        header.msg_ident,
                        timestamp,
                        write_rank,
                        &sector_data,
                    ) {
                        Some(message) => Some((message, c.op.duplicate())),
                        None => None,
                    },
                    None => None,
                };
                let out = match step {
                    Some((message, op)) => {
                        self.storage.record_pending_operation(op);
                        Outgoing::Broadcast(message)
                    },
                    None => Outgoing::Nothing,
                };
                proof {
                    assert forall|i: int| 0 <= i < self.coordinators@.len() implies #[trigger]
                        self.slot_ok(i) by {
                        assert(old(self).slot_ok(i));
                    }
                }
                out
            },
            SystemRegisterCommandContent::Ack => {
                let step = match &mut self.coordinators[at] {
                    Some(c) => c.on_ack(from, header.msg_ident),
                    None => None,
                };
                let out = match step {
                    Some(response) => {
                        self.storage.clear_pending_operation(header.sector_idx);
                        Outgoing::Respond(response)
                    },
                    None => Outgoing::Nothing,
                };
                proof {
                    assert forall|i: int| 0 <= i < self.coordinators@.len() implies #[trigger]
                        self.slot_ok(i) by {
                        assert(old(self).slot_ok(i));
                    }
                }
                out
            },
        }
    }
}

} // verus!
