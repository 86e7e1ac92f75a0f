//! The coordinator of one sector's operations.
//!
//! A client's request is carried out in two phases. In the read phase the
//! coordinator asks every replica for its record of the sector and waits for
//! a quorum of `Value` replies; it keeps the newest record among them. In the
//! write-back phase it sends a record to every replica and waits for a
//! quorum of `Ack` replies: for a read the newest record as it is, for a
//! write the client's data stamped one past the newest timestamp, with its
//! own rank. Replies that carry another operation's identifier, come from no
//! known rank or come twice from one replica are not counted.
//!
//! The coordinator decides; it sends and stores nothing. Each call takes an
//! event and returns what is to be sent.

use crate::command::{
    zero_sector,
    ClientRegisterCommand,
    ClientRegisterCommandContent,
    ClientResponse,
    Message,
    Reply,
    SectorVec,
    SystemCommandHeader,
    SystemRegisterCommand,
    SystemRegisterCommandContent,
    SECTOR_SIZE,
};
use crate::quorum::{count_set, count_true, lemma_count_bounded, lemma_count_none, lemma_count_set, quorum, quorum_size};
use crate::storage::{accepted, initial_record, is_older, Pending, PendingOperation, Record, SectorRecord};
use vstd::prelude::*;

verus! {

/// Where the coordinator stands.
#[derive(Debug, Clone, Copy, PartialEq, Eq, Structural)]
pub enum Phase {
    /// No operation is in flight.
    Idle,
    /// Waiting for a quorum of `Value` replies.
    Reading,
    /// Waiting for a quorum of `Ack` replies.
    Writing,
}

/// Why an operation is not started.
#[derive(Debug, Clone, Copy, PartialEq, Eq, Structural)]
pub enum StartError {
    /// Another operation on the sector is in flight.
    Busy,
    /// The data does not have the size of a sector.
    SectorSize,
}

/// The coordinator of one sector at the process of rank `self_rank`, one of
/// `n_processes` processes ranked from 1.
#[derive(Debug, Clone, PartialEq, Eq)]
pub struct Coordinator {
    pub self_rank: u8,
    pub n_processes: u8,
    pub phase: Phase,
    /// The operation in flight; what it was last, when idle.
    pub op: PendingOperation,
    /// The newest record among the counted `Value` replies.
    pub best: SectorRecord,
    /// Which ranks have been counted in the current phase, rank 1 first.
    pub replied: Vec<bool>,
    /// How many ranks have been counted in the current phase.
    pub replies: usize,
}

/// The operation for a client's request, before anything is decided.
pub open spec fn undecided(request: Message, msg_ident: u128) -> Pending {
    match request {
        Message::Write { request_identifier, sector_idx, data } => Pending {
            msg_ident,
            request_identifier,
            sector_idx,
            is_write: true,
            decided: false,
            timestamp: 0,
            write_rank: 0,
            data,
        },
        Message::Read { request_identifier, sector_idx } => Pending {
            msg_ident,
            request_identifier,
            sector_idx,
            is_write: false,
            decided: false,
            timestamp: 0,
            write_rank: 0,
            data: zero_sector(),
        },
        _ => arbitrary(),
    }
}

/// The operation once the read phase has ended with `best` as the newest
/// record: a read writes `best` back; a write writes the client's data, one
/// timestamp later and with the coordinator's rank.
pub open spec fn decided(op: Pending, best: Record, self_rank: u8) -> Pending {
    if op.is_write {
        Pending {
            decided: true,
            timestamp: (best.timestamp + 1) as u64,
            write_rank: self_rank,
            ..op
        }
    } else {
        Pending {
            decided: true,
            timestamp: best.timestamp,
            write_rank: best.write_rank,
            data: best.value,
            ..op
        }
    }
}

/// The `ReadProc` that opens the read phase of `op`.
pub open spec fn read_proc_of(op: Pending, self_rank: u8) -> Message {
    Message::ReadProc {
        process_identifier: self_rank,
        msg_ident: op.msg_ident,
        sector_idx: op.sector_idx,
    }
}

/// The `WriteProc` that opens the write-back phase of the decided `op`.
pub open spec fn write_proc_of(op: Pending, self_rank: u8) -> Message {
    Message::WriteProc {
        process_identifier: self_rank,
        msg_ident: op.msg_ident,
        sector_idx: op.sector_idx,
        timestamp: op.timestamp,
        write_rank: op.write_rank,
        data: op.data,
    }
}

/// The message with which the operation `op` is taken up again after a
/// restart: the write-back if the record to write had been chosen, else the
/// read phase.
pub open spec fn resumption_of(op: Pending, self_rank: u8) -> Message {
    if op.decided {
        write_proc_of(op, self_rank)
    } else {
        read_proc_of(op, self_rank)
    }
}

/// What the client is told when the decided `op` is done.
pub open spec fn outcome_of(op: Pending) -> Reply {
    if op.is_write {
        Reply::WriteOk { request_identifier: op.request_identifier }
    } else {
        Reply::ReadOk { request_identifier: op.request_identifier, data: op.data }
    }
}

/// `n` entries, none set.
fn none_replied(n: u8) -> (v: Vec<bool>)
    ensures
        v@ == Seq::new(n as nat, |i: int| false),
        count_true(v@) == 0,
{
    let mut v: Vec<bool> = Vec::new();
    let mut i: u8 = 0;
    while i < n
        invariant
            i <= n,
            v@.len() == i,
            forall|k: int| 0 <= k < i ==> !v@[k],
        decreases n - i,
    {
        v.push(false);
        i += 1;
    }
    assert(v@ =~= Seq::new(n as nat, |i: int| false));
    proof {
        lemma_count_none(v@);
    }
    v
}

fn read_proc(op: &PendingOperation, self_rank: u8) -> (cmd: SystemRegisterCommand)
    ensures
        cmd@ == read_proc_of(op@, self_rank),
{
    SystemRegisterCommand {
        header: SystemCommandHeader {
            process_identifier: self_rank,
            msg_ident: op.msg_ident,
            sector_idx: op.sector_idx,
        },
        content: SystemRegisterCommandContent::ReadProc,
    }
}

fn write_proc(op: &PendingOperation, self_rank: u8) -> (cmd: SystemRegisterCommand)
    ensures
        cmd@ == write_proc_of(op@, self_rank),
{
    SystemRegisterCommand {
        header: SystemCommandHeader {
            process_identifier: self_rank,
            msg_ident: op.msg_ident,
            sector_idx: op.sector_idx,
        },
        content: SystemRegisterCommandContent::WriteProc {
            timestamp: op.timestamp,
            write_rank: op.write_rank,
            data_to_write: op.data.duplicate(),
        },
    }
}

impl Coordinator {
    /// The fields agree with each other.
    pub open spec fn wf(&self) -> bool {
        &&& 1 <= self.self_rank <= self.n_processes
        &&& self.replied@.len() == self.n_processes
        &&& self.replies == count_true(self.replied@)
        &&& self.op.data.wf()
        &&& self.best.value.wf()
        &&& self.best.timestamp < u64::MAX
        &&& (!(self.phase is Idle) ==> self.replies < quorum(self.n_processes as int))
        &&& (self.phase is Reading ==> !self.op.decided)
        &&& (self.phase is Writing ==> self.op.decided)
    }

    /// Whether the coordinator is well formed.
    pub fn is_valid(&self) -> (ok: bool)
        ensures
            ok == self.wf(),
    {
        if self.self_rank < 1 || self.self_rank > self.n_processes || self.replied.len()
            != self.n_processes as usize {
            return false;
        }
        if self.replies != count_set(&self.replied) || !self.op.data.is_valid()
            || !self.best.value.is_valid() || self.best.timestamp == u64::MAX {
            return false;
        }
        match self.phase {
            Phase::Idle => true,
            Phase::Reading => self.replies < quorum_size(self.n_processes) && !self.op.decided,
            Phase::Writing => self.replies < quorum_size(self.n_processes) && self.op.decided,
        }
    }

    /// Whether a reply from rank `from` under `msg_ident` is counted: it
    /// carries the identifier of the operation in flight and comes from a
    /// rank that has not been counted in this phase.
    pub open spec fn counts(&self, from: u8, msg_ident: u128) -> bool {
        &&& 1 <= from <= self.n_processes
        &&& msg_ident == self.op.msg_ident
        &&& !self.replied@[from - 1]
    }

    /// What a `Value` reply does: `self` is the coordinator before, `next`
    /// after, `out` what is to be sent to every process.
    ///
    /// The reply is counted if the read phase is on, `counts` holds, the
    /// data has the size of a sector and the timestamp is below `u64::MAX`,
    /// past which no write could be stamped. A reply that is not counted
    /// changes nothing. A counted one replaces the newest record if it is
    /// newer. With the reply that completes the quorum the record to write
    /// back is decided, the write-back phase begins, and the `WriteProc` for
    /// it goes out.
    pub open spec fn value_step(
        &self,
        next: &Coordinator,
        from: u8,
        msg_ident: u128,
        reply: Record,
        out: Option<Message>,
    ) -> bool {
        let counted = self.phase is Reading && self.counts(from, msg_ident) && reply.value.len()
            == SECTOR_SIZE && reply.timestamp < u64::MAX;
        let best = accepted(self.best@, reply);
        let reached = self.replies + 1 >= quorum(self.n_processes as int);
        if !counted {
            *next == *self && out is None
        } else if !reached {
            &&& out is None
            &&& next.phase is Reading
            &&& next.op@ == self.op@
            &&& next.best@ == best
            &&& next.replied@ == self.replied@.update(from - 1, true)
            &&& next.replies == self.replies + 1
        } else {
            &&& next.phase is Writing
            &&& next.op@ == decided(self.op@, best, self.self_rank)
            &&& next.best@ == best
            &&& next.replied@ == Seq::new(self.n_processes as nat, |i: int| false)
            &&& next.replies == 0
            &&& out == Some(write_proc_of(next.op@, self.self_rank))
        }
    }

    /// What an `Ack` reply does: `self` is the coordinator before, `next`
    /// after, `out` what the client is told.
    ///
    /// The reply is counted if the write-back phase is on and `counts`
    /// holds; one that is not counted changes nothing. With the reply that
    /// completes the quorum the operation is done: the coordinator is idle
    /// again and the client gets the value read, for a read, or the
    /// confirmation, for a write.
    pub open spec fn ack_step(
        &self,
        next: &Coordinator,
        from: u8,
        msg_ident: u128,
        out: Option<Reply>,
    ) -> bool {
        let counted = self.phase is Writing && self.counts(from, msg_ident);
        let reached = self.replies + 1 >= quorum(self.n_processes as int);
        if !counted {
            *next == *self && out is None
        } else if !reached {
            &&& out is None
            &&& next.phase is Writing
            &&& next.op@ == self.op@
            &&& next.best@ == self.best@
            &&& next.replied@ == self.replied@.update(from - 1, true)
            &&& next.replies == self.replies + 1
        } else {
            &&& next.phase is Idle
            &&& next.op@ == self.op@
            &&& next.best@ == self.best@
            &&& next.replied@ == self.replied@.update(from - 1, true)
            &&& next.replies == self.replies + 1
            &&& out == Some(outcome_of(self.op@))
        }
    }

    /// An idle coordinator. `None` unless `1 <= self_rank <= n_processes`.
    pub fn new(self_rank: u8, n_processes: u8) -> (r: Option<Coordinator>)
        ensures
            r is Some <==> 1 <= self_rank <= n_processes,
            r matches Some(c) ==> c.wf() && c.phase is Idle && c.self_rank == self_rank
                && c.n_processes == n_processes && c.best@ == initial_record() && c.replied@
                == Seq::new(n_processes as nat, |i: int| false) && c.replies == 0,
    {
        if self_rank < 1 || self_rank > n_processes {
            return None;
        }
        Some(
            Coordinator {
                self_rank,
                n_processes,
                phase: Phase::Idle,
                op: PendingOperation {
                    msg_ident: 0,
                    request_identifier: 0,
                    sector_idx: 0,
                    is_write: false,
                    decided: false,
                    timestamp: 0,
                    write_rank: 0,
                    data: SectorVec::zeroed(),
                },
                best: SectorRecord { timestamp: 0, write_rank: 0, value: SectorVec::zeroed() },
                replied: none_replied(n_processes),
                replies: 0,
            },
        )
    }

    /// Whether an operation is in flight.
    pub fn is_busy(&self) -> (busy: bool)
        ensures
            busy == !(self.phase is Idle),
    {
        match self.phase {
            Phase::Idle => false,
            _ => true,
        }
    }

    /// A copy of the operation in flight, to be kept across a restart.
    pub fn pending(&self) -> (r: Option<PendingOperation>)
        ensures
            r is Some <==> !(self.phase is Idle),
            r matches Some(op) ==> op@ == self.op@,
    {
        if self.is_busy() {
            Some(self.op.duplicate())
        } else {
            None
        }
    }

    /// Starts the operation that `request` asks for, under the fresh
    /// identifier `msg_ident`, and returns the `ReadProc` to send to every
    /// process. Refused while another operation is in flight, and for data
    /// of the wrong size; nothing changes then.
    pub fn begin(&mut self, request: &ClientRegisterCommand, msg_ident: u128) -> (r: Result<
        SystemRegisterCommand,
        StartError,
    >)
        requires
            old(self).wf(),
        ensures
            final(self).wf(),
            final(self).self_rank == old(self).self_rank,
            final(self).n_processes == old(self).n_processes,
            r is Ok <==> old(self).phase is Idle && request@.wf(),
            r matches Err(e) ==> *final(self) == *old(self) && (e == StartError::Busy <==> !(old(self).phase is Idle)),
            r matches Ok(cmd) ==> final(self).phase is Reading && final(self).op@ == undecided(
                request@,
                msg_ident,
            ) && final(self).best@ == initial_record() && final(self).replied@ == Seq::new(
                old(self).n_processes as nat,
                |i: int| false,
            ) && final(self).replies == 0 && cmd@ == read_proc_of(
                final(self).op@,
                old(self).self_rank,
            ),
    {
        if self.is_busy() {
            return Err(StartError::Busy);
        }
        let (is_write, data) = match &request.content {
            ClientRegisterCommandContent::Read => (false, SectorVec::zeroed()),
            ClientRegisterCommandContent::Write { data } => {
                if !data.is_valid() {
                    return Err(StartError::SectorSize);
                }
                (true, data.duplicate())
            },
        };
        self.op = PendingOperation {
            msg_ident,
            request_identifier: request.header.request_identifier,
            sector_idx: request.header.sector_idx,
            is_write,
            decided: false,
            timestamp: 0,
            write_rank: 0,
            data,
        };
        self.best = SectorRecord { timestamp: 0, write_rank: 0, value: SectorVec::zeroed() };
        self.replied = none_replied(self.n_processes);
        self.replies = 0;
        self.phase = Phase::Reading;
        Ok(read_proc(&self.op, self.self_rank))
    }

    /// Takes up again, after a restart, the operation `op` that was in
    /// flight, under the identifier it had: with the write-back if the
    /// record to write had been chosen, else from the read phase. Returns
    /// the message to send to every process. Refused while another
    /// operation is in flight, and for data of the wrong size.
    pub fn resume(&mut self, op: PendingOperation) -> (r: Result<SystemRegisterCommand, StartError>)
        requires
            old(self).wf(),
        ensures
            final(self).wf(),
            final(self).self_rank == old(self).self_rank,
            final(self).n_processes == old(self).n_processes,
            r is Ok <==> old(self).phase is Idle && op.data.wf(),
            r matches Err(e) ==> *final(self) == *old(self) && (e == StartError::Busy <==> !(old(self).phase is Idle)),
            r matches Ok(cmd) ==> final(self).op@ == op@ && final(self).best@ == initial_record()
                && final(self).replied@ == Seq::new(
                old(self).n_processes as nat,
                |i: int| false,
            ) && final(self).replies == 0 && cmd@ == resumption_of(op@, old(self).self_rank)
                && if op.decided {
                final(self).phase is Writing
            } else {
                final(self).phase is Reading
            },
    {
        if self.is_busy() {
            return Err(StartError::Busy);
        }
        if !op.data.is_valid() {
            return Err(StartError::SectorSize);
        }
        self.op = op;
        self.best = SectorRecord { timestamp: 0, write_rank: 0, value: SectorVec::zeroed() };
        self.replied = none_replied(self.n_processes);
        self.replies = 0;
        if self.op.decided {
            self.phase = Phase::Writing;
            Ok(write_proc(&self.op, self.self_rank))
        } else {
            self.phase = Phase::Reading;
            Ok(read_proc(&self.op, self.self_rank))
        }
    }

    /// Whether a reply from `from` under `msg_ident` is counted.
    fn is_counted(&self, from: u8, msg_ident: u128) -> (yes: bool)
        requires
            self.wf(),
        ensures
            yes == self.counts(from, msg_ident),
    {
        1 <= from && from <= self.n_processes && msg_ident == self.op.msg_ident
            && !self.replied[(from - 1) as usize]
    }

    /// Counts the reply of rank `from`; says whether a quorum is reached.
    fn count(&mut self, from: u8) -> (reached: bool)
        requires
            old(self).wf(),
            !(old(self).phase is Idle),
            1 <= from <= old(self).n_processes,
            !old(self).replied@[from - 1],
        ensures
            reached == (old(self).replies + 1 >= quorum(old(self).n_processes as int)),
            final(self).replied@ == old(self).replied@.update(from - 1, true),
            final(self).replies == old(self).replies + 1,
            final(self).replies == count_true(final(self).replied@),
            final(self).self_rank == old(self).self_rank,
            final(self).n_processes == old(self).n_processes,
            final(self).phase == old(self).phase,
            final(self).op == old(self).op,
            final(self).best == old(self).best,
    {
        proof {
            lemma_count_set(self.replied@, from - 1);
            lemma_count_bounded(self.replied@);
        }
        self.replied.set((from - 1) as usize, true);
        self.replies = self.replies + 1;
        self.replies >= quorum_size(self.n_processes)
    }

    /// Takes a `Value` reply: the record `(timestamp, write_rank, data)` of
    /// the sector at rank `from`, under `msg_ident`. Returns the
    /// `WriteProc` to send to every process, if the reply completes the
    /// quorum of the read phase.
    pub fn on_value(
        &mut self,
        from: u8,
        msg_ident: u128,
        timestamp: u64,
        write_rank: u8,
        data: &SectorVec,
    ) -> (r: Option<SystemRegisterCommand>)
        requires
            old(self).wf(),
        ensures
            final(self).wf(),
            final(self).self_rank == old(self).self_rank,
            final(self).n_processes == old(self).n_processes,
            old(self).value_step(
                final(self),
                from,
                msg_ident,
                Record { timestamp, write_rank, value: data.0@ },
                match r {
                    Some(cmd) => Some(cmd@),
                    None => None,
                },
            ),
            !(final(self).phase is Idle) ==> final(self).op.sector_idx == old(self).op.sector_idx,
    {
        let reading = match self.phase {
            Phase::Reading => true,
            _ => false,
        };
        if !reading || !self.is_counted(from, msg_ident) || !data.is_valid() || timestamp
            == u64::MAX {
            return None;
        }
        if is_older(self.best.timestamp, self.best.write_rank, timestamp, write_rank) {
            self.best = SectorRecord { timestamp, write_rank, value: data.duplicate() };
        }
        if !self.count(from) {
            return None;
        }
        if self.op.is_write {
            self.op.timestamp = self.best.timestamp + 1;
            self.op.write_rank = self.self_rank;
        } else {
            self.op.timestamp = self.best.timestamp;
            self.op.write_rank = self.best.write_rank;
            self.op.data = self.best.value.duplicate();
        }
        self.op.decided = true;
        self.replied = none_replied(self.n_processes);
        self.replies = 0;
        self.phase = Phase::Writing;
        Some(write_proc(&self.op, self.self_rank))
    }

    /// Takes an `Ack` reply from rank `from` under `msg_ident`. Returns the
    /// response for the client, if the reply completes the quorum of the
    /// write-back phase.
    pub fn on_ack(&mut self, from: u8, msg_ident: u128) -> (r: Option<ClientResponse>)
        requires
            old(self).wf(),
        ensures
            final(self).wf(),
            final(self).self_rank == old(self).self_rank,
            final(self).n_processes == old(self).n_processes,
            old(self).ack_step(
                final(self),
                from,
                msg_ident,
                match r {
                    Some(resp) => Some(resp@),
                    None => None,
                },
            ),
            r matches Some(resp) ==> resp@.wf(),
            !(final(self).phase is Idle) ==> final(self).op.sector_idx == old(self).op.sector_idx,
    {
        let writing = match self.phase {
            Phase::Writing => true,
            _ => false,
        };
        if !writing || !self.is_counted(from, msg_ident) {
            return None;
        }
        if !self.count(from) {
            return None;
        }
        self.phase = Phase::Idle;
        if self.op.is_write {
            Some(ClientResponse::WriteOk { request_identifier: self.op.request_identifier })
        } else {
            Some(
                ClientResponse::ReadOk {
                    request_identifier: self.op.request_identifier,
                    data: self.op.data.duplicate(),
                },
            )
        }
    }
}

} // verus!
