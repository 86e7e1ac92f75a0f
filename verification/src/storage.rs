//! What a replica keeps of each sector, and of the operation it coordinates.
//!
//! A sector's record is the highest write that the replica has accepted:
//! a timestamp, the rank of the writer and the content. Records are ordered
//! by timestamp first and rank second.

use crate::command::{
    zero_sector, Message, SectorVec, SystemCommandHeader, SystemRegisterCommand,
    SystemRegisterCommandContent,
};
use crate::bytes::range_equals;
use vstd::prelude::*;

verus! {

/// A sector's record as it is stored.
#[derive(Debug, Clone, PartialEq, Eq)]
pub struct SectorRecord {
    pub timestamp: u64,
    pub write_rank: u8,
    pub value: SectorVec,
}

/// A sector's record, with the content as a byte sequence.
pub struct Record {
    pub timestamp: u64,
    pub write_rank: u8,
    pub value: Seq<u8>,
}

impl View for SectorRecord {
    type V = Record;

    open spec fn view(&self) -> Record {
        Record { timestamp: self.timestamp, write_rank: self.write_rank, value: self.value.0@ }
    }
}

impl SectorRecord {
    /// A copy of this record.
    pub fn duplicate(&self) -> (r: SectorRecord)
        ensures
            r@ == self@,
    {
        SectorRecord {
            timestamp: self.timestamp,
            write_rank: self.write_rank,
            value: self.value.duplicate(),
        }
    }
}

/// The record of a sector that was never written.
pub open spec fn initial_record() -> Record {
    Record { timestamp: 0, write_rank: 0, value: zero_sector() }
}

/// Whether the write stamped `(ts_a, rank_a)` is older than the one stamped
/// `(ts_b, rank_b)`: a smaller timestamp, or the same and a smaller rank.
pub open spec fn stamp_lt(ts_a: u64, rank_a: u8, ts_b: u64, rank_b: u8) -> bool {
    ts_a < ts_b || (ts_a == ts_b && rank_a < rank_b)
}

/// Whether `a` is older than `b`.
pub open spec fn older(a: Record, b: Record) -> bool {
    stamp_lt(a.timestamp, a.write_rank, b.timestamp, b.write_rank)
}

/// What a replica holds after it was offered `incoming` while holding
/// `current`: the newer of the two, and `current` where neither is.
pub open spec fn accepted(current: Record, incoming: Record) -> Record {
    if older(current, incoming) {
        incoming
    } else {
        current
    }
}

/// Whether the write stamped `(ts_a, rank_a)` is older than the one stamped
/// `(ts_b, rank_b)`.
pub fn is_older(ts_a: u64, rank_a: u8, ts_b: u64, rank_b: u8) -> (yes: bool)
    ensures
        yes == stamp_lt(ts_a, rank_a, ts_b, rank_b),
{
    ts_a < ts_b || (ts_a == ts_b && rank_a < rank_b)
}

/// The operation that a replica coordinates, as it is kept across restarts.
#[derive(Debug, Clone, PartialEq, Eq)]
pub struct PendingOperation {
    pub msg_ident: u128,
    pub request_identifier: u64,
    pub sector_idx: u64,
    pub is_write: bool,
    /// Whether the record to write back has been chosen.
    pub decided: bool,
    /// Once decided, the stamp of the record to write back.
    pub timestamp: u64,
    pub write_rank: u8,
    /// Once decided, the content to write back. Before, the client's data
    /// for a write.
    pub data: SectorVec,
}

/// A pending operation, with the content as a byte sequence.
pub struct Pending {
    pub msg_ident: u128,
    pub request_identifier: u64,
    pub sector_idx: u64,
    pub is_write: bool,
    pub decided: bool,
    pub timestamp: u64,
    pub write_rank: u8,
    pub data: Seq<u8>,
}

impl View for PendingOperation {
    type V = Pending;

    open spec fn view(&self) -> Pending {
        Pending {
            msg_ident: self.msg_ident,
            request_identifier: self.request_identifier,
            sector_idx: self.sector_idx,
            is_write: self.is_write,
            decided: self.decided,
            timestamp: self.timestamp,
            write_rank: self.write_rank,
            data: self.data.0@,
        }
    }
}

impl PendingOperation {
    /// Whether `other` is the same operation.
    pub fn same_as(&self, other: &PendingOperation) -> (same: bool)
        ensures
            same == (self@ == other@),
    {
        let fields = self.msg_ident == other.msg_ident && self.request_identifier
            == other.request_identifier && self.sector_idx == other.sector_idx && self.is_write
            == other.is_write && self.decided == other.decided && self.timestamp == other.timestamp
            && self.write_rank == other.write_rank;
        if !fields || self.data.0.len() != other.data.0.len() {
            return false;
        }
        let same = range_equals(self.data.0.as_slice(), 0, other.data.0.as_slice());
        assert(self.data.0@.subrange(0, other.data.0@.len() as int) =~= self.data.0@);
        same
    }

    /// A copy of this operation.
    pub fn duplicate(&self) -> (r: PendingOperation)
        ensures
            r@ == self@,
    {
        PendingOperation {
            msg_ident: self.msg_ident,
            request_identifier: self.request_identifier,
            sector_idx: self.sector_idx,
            is_write: self.is_write,
            decided: self.decided,
            timestamp: self.timestamp,
            write_rank: self.write_rank,
            data: self.data.duplicate(),
        }
    }
}

/// The sector named does not exist, or the content has not a sector's size.
#[derive(Debug, Clone, Copy, PartialEq, Eq, Structural)]
pub enum StorageError {
    InvalidSectorIndex,
    SectorSize,
}

/// The records of one replica's disk, one per sector, and for each sector
/// the operation on it that the replica coordinates, if there is one.
#[derive(Debug, Clone, PartialEq, Eq)]
pub struct StableStorage {
    pub sectors: Vec<Option<SectorRecord>>,
    pub pending: Vec<Option<PendingOperation>>,
}

impl StableStorage {
    /// Every sector has its place for a pending operation, and every stored
    /// content has the size of a sector.
    pub open spec fn wf(&self) -> bool {
        &&& self.pending@.len() == self.sectors@.len()
        &&& forall|i: int|
            0 <= i < self.sectors@.len() ==> (#[trigger] self.sectors@[i] matches Some(r)
                ==> r.value.wf())
    }

    /// Whether the table is well formed.
    pub fn is_valid(&self) -> (ok: bool)
        ensures
            ok == self.wf(),
    {
        if self.pending.len() != self.sectors.len() {
            return false;
        }
        let mut i: usize = 0;
        while i < self.sectors.len()
            invariant
                i <= self.sectors@.len(),
                self.pending@.len() == self.sectors@.len(),
                forall|k: int|
                    0 <= k < i ==> (#[trigger] self.sectors@[k] matches Some(r) ==> r.value.wf()),
            decreases self.sectors@.len() - i,
        {
            let good = match &self.sectors[i] {
                Some(r) => r.value.is_valid(),
                None => true,
            };
            if !good {
                return false;
            }
            i += 1;
        }
        true
    }

    /// The number of sectors.
    pub open spec fn n_sectors(&self) -> nat {
        self.sectors@.len()
    }

    /// The record of sector `i`.
    pub open spec fn record_at(&self, i: int) -> Record {
        match self.sectors@[i] {
            Some(r) => r@,
            None => initial_record(),
        }
    }

    /// The pending operation on sector `i`, if there is one.
    pub open spec fn pending_at(&self, i: int) -> Option<Pending> {
        match self.pending@[i] {
            Some(op) => Some(op@),
            None => None,
        }
    }

    /// A disk of `n_sectors` sectors, none of them written yet, with no
    /// pending operation.
    pub fn new(n_sectors: usize) -> (s: StableStorage)
        ensures
            s.wf(),
            s.n_sectors() == n_sectors,
            forall|i: int|
                0 <= i < n_sectors ==> s.record_at(i) == initial_record() && s.pending_at(i) is None,
    {
        let mut sectors: Vec<Option<SectorRecord>> = Vec::new();
        let mut pending: Vec<Option<PendingOperation>> = Vec::new();
        let mut i: usize = 0;
        while i < n_sectors
            invariant
                i <= n_sectors,
                sectors@.len() == i,
                pending@.len() == i,
                forall|k: int| 0 <= k < i ==> sectors@[k] is None && pending@[k] is None,
            decreases n_sectors - i,
        {
            sectors.push(None);
            pending.push(None);
            i += 1;
        }
        StableStorage { sectors, pending }
    }

    /// Whether the disk has a sector `sector_idx`.
    pub fn has_sector(&self, sector_idx: u64) -> (yes: bool)
        ensures
            yes == (sector_idx < self.n_sectors()),
    {
        self.slot(sector_idx).is_some()
    }

    /// The place of sector `sector_idx` in the table, if the disk has it.
    pub fn slot(&self, sector_idx: u64) -> (r: Option<usize>)
        ensures
            r is Some <==> sector_idx < self.n_sectors(),
            r matches Some(i) ==> i == sector_idx,
    {
        let n = self.sectors.len();
        if n > 0 && sector_idx <= (n - 1) as u64 {
            Some(sector_idx as usize)
        } else {
            None
        }
    }

    /// The record of sector `sector_idx`: what was stored last, or the
    /// initial record. `None` for a sector that the disk does not have.
    pub fn load(&self, sector_idx: u64) -> (r: Option<SectorRecord>)
        requires
            self.wf(),
        ensures
            r is Some <==> sector_idx < self.n_sectors(),
            r matches Some(rec) ==> rec@ == self.record_at(sector_idx as int) && rec.value.wf(),
    {
        let at = match self.slot(sector_idx) {
            Some(at) => at,
            None => {
                return None;
            },
        };
        match &self.sectors[at] {
            Some(rec) => Some(rec.duplicate()),
            None => Some(SectorRecord { timestamp: 0, write_rank: 0, value: SectorVec::zeroed() }),
        }
    }

    /// Replaces the record of sector `sector_idx`.
    pub fn store(&mut self, sector_idx: u64, timestamp: u64, write_rank: u8, value: SectorVec) -> (r:
        Result<(), StorageError>)
        requires
            old(self).wf(),
        ensures
            final(self).wf(),
            final(self).n_sectors() == old(self).n_sectors(),
            final(self).pending == old(self).pending,
            forall|i: int|
                0 <= i < old(self).n_sectors() && i != sector_idx ==> final(self).sectors@[i]
                    == old(self).sectors@[i],
            r is Ok <==> sector_idx < old(self).n_sectors() && value.wf(),
            r is Ok ==> final(self).record_at(sector_idx as int) == (Record {
                timestamp,
                write_rank,
                value: value.0@,
            }),
            r is Err ==> *final(self) == *old(self),
            r matches Err(e) ==> (e == StorageError::InvalidSectorIndex <==> sector_idx >= old(self).n_sectors()),
    {
        let at = match self.slot(sector_idx) {
            Some(at) => at,
            None => {
                return Err(StorageError::InvalidSectorIndex);
            },
        };
        if !value.is_valid() {
            return Err(StorageError::SectorSize);
        }
        self.sectors.set(at, Some(SectorRecord { timestamp, write_rank, value }));
        Ok(())
    }

    /// Offers a write to sector `sector_idx`: it replaces the record if and
    /// only if it is newer than the record held. The result says whether it
    /// did.
    pub fn accept_write(
        &mut self,
        sector_idx: u64,
        timestamp: u64,
        write_rank: u8,
        value: SectorVec,
    ) -> (r: Result<bool, StorageError>)
        requires
            old(self).wf(),
        ensures
            final(self).wf(),
            final(self).n_sectors() == old(self).n_sectors(),
            final(self).pending == old(self).pending,
            forall|i: int|
                0 <= i < old(self).n_sectors() && i != sector_idx ==> final(self).sectors@[i]
                    == old(self).sectors@[i],
            r is Ok <==> sector_idx < old(self).n_sectors() && value.wf(),
            r matches Ok(stored) ==> stored == older(
                old(self).record_at(sector_idx as int),
                Record { timestamp, write_rank, value: value.0@ },
            ) && final(self).record_at(sector_idx as int) == accepted(
                old(self).record_at(sector_idx as int),
                Record { timestamp, write_rank, value: value.0@ },
            ),
            r is Err ==> *final(self) == *old(self),
            r matches Err(e) ==> (e == StorageError::InvalidSectorIndex <==> sector_idx >= old(self).n_sectors()),
    {
        let at = match self.slot(sector_idx) {
            Some(at) => at,
            None => {
                return Err(StorageError::InvalidSectorIndex);
            },
        };
        if !value.is_valid() {
            return Err(StorageError::SectorSize);
        }
        let newer = match &self.sectors[at] {
            Some(rec) => is_older(rec.timestamp, rec.write_rank, timestamp, write_rank),
            None => is_older(0, 0, timestamp, write_rank),
        };
        if newer {
            self.sectors.set(at, Some(SectorRecord { timestamp, write_rank, value }));
        }
        Ok(newer)
    }

    /// Notes the operation that this replica now coordinates on the sector
    /// that `op` names. Says whether the disk has that sector; nothing
    /// changes if not.
    pub fn record_pending_operation(&mut self, op: PendingOperation) -> (done: bool)
        requires
            old(self).wf(),
        ensures
            final(self).wf(),
            final(self).sectors == old(self).sectors,
            done == (op.sector_idx < old(self).n_sectors()),
            done ==> final(self).pending@ == old(self).pending@.update(
                op.sector_idx as int,
                Some(op),
            ),
            !done ==> *final(self) == *old(self),
    {
        match self.slot(op.sector_idx) {
            Some(at) => {
                self.pending.set(at, Some(op));
                true
            },
            None => false,
        }
    }

    /// Notes that this replica coordinates no operation on `sector_idx`.
    pub fn clear_pending_operation(&mut self, sector_idx: u64)
        requires
            old(self).wf(),
        ensures
            final(self).wf(),
            final(self).sectors == old(self).sectors,
            sector_idx < old(self).n_sectors() ==> final(self).pending@ == old(self).pending@.update(sector_idx as int, None),
            sector_idx >= old(self).n_sectors() ==> *final(self) == *old(self),
    {
        match self.slot(sector_idx) {
            Some(at) => {
                self.pending.set(at, None);
            },
            None => {},
        }
    }

    /// Whether an operation on `sector_idx` is noted.
    pub fn has_pending_operation(&self, sector_idx: u64) -> (yes: bool)
        requires
            self.wf(),
        ensures
            yes == (sector_idx < self.n_sectors() && self.pending@[sector_idx as int] is Some),
    {
        match self.slot(sector_idx) {
            Some(at) => self.pending[at].is_some(),
            None => false,
        }
    }

    /// The operation on `sector_idx` to take up again after a restart, if
    /// there is one.
    pub fn pending_operation(&self, sector_idx: u64) -> (r: Option<PendingOperation>)
        requires
            self.wf(),
        ensures
            r is Some <==> sector_idx < self.n_sectors() && self.pending@[sector_idx as int]
                is Some,
            r matches Some(op) ==> Some(op@) == self.pending_at(sector_idx as int),
    {
        match self.slot(sector_idx) {
            Some(at) => match &self.pending[at] {
                Some(op) => Some(op.duplicate()),
                None => None,
            },
            None => None,
        }
    }

    /// Answers a replica's `ReadProc`: the sector's record in a `Value`
    /// message from `self_rank`, under the identifier of the request. The
    /// disk is not changed. No answer for a sector that the disk does not
    /// have.
    pub fn serve_read_proc(&self, self_rank: u8, request: &SystemCommandHeader) -> (r: Option<
        SystemRegisterCommand,
    >)
        requires
            self.wf(),
        ensures
            r is Some <==> request.sector_idx < self.n_sectors(),
            r matches Some(reply) ==> reply@ == (Message::Value {
                process_identifier: self_rank,
                msg_ident: request.msg_ident,
                sector_idx: request.sector_idx,
                timestamp: self.record_at(request.sector_idx as int).timestamp,
                write_rank: self.record_at(request.sector_idx as int).write_rank,
                data: self.record_at(request.sector_idx as int).value,
            }) && reply@.wf(),
    {
        match self.load(request.sector_idx) {
            None => None,
            Some(rec) => Some(
                SystemRegisterCommand {
                    header: SystemCommandHeader {
                        process_identifier: self_rank,
                        msg_ident: request.msg_ident,
                        sector_idx: request.sector_idx,
                    },
                    content: SystemRegisterCommandContent::Value {
                        timestamp: rec.timestamp,
                        write_rank: rec.write_rank,
                        sector_data: rec.value,
                    },
                },
            ),
        }
    }

    /// Answers a replica's `WriteProc`: the write is offered to the sector,
    /// which takes it if and only if it is newer than what it holds, and an
    /// `Ack` from `self_rank` is returned either way, with the flag that
    /// says whether the record changed. No answer, and no change, for a
    /// sector that the disk does not have or a content of the wrong size.
    pub fn serve_write_proc(
        &mut self,
        self_rank: u8,
        request: &SystemCommandHeader,
        timestamp: u64,
        write_rank: u8,
        data: SectorVec,
    ) -> (r: Option<(SystemRegisterCommand, bool)>)
        requires
            old(self).wf(),
        ensures
            final(self).wf(),
            final(self).n_sectors() == old(self).n_sectors(),
            final(self).pending == old(self).pending,
            forall|i: int|
                0 <= i < old(self).n_sectors() && i != request.sector_idx ==> final(self).sectors@[i] == old(self).sectors@[i],
            r is Some <==> request.sector_idx < old(self).n_sectors() && data.wf(),
            r is None ==> *final(self) == *old(self),
            r matches Some((reply, stored)) ==> reply@ == (Message::Ack {
                process_identifier: self_rank,
                msg_ident: request.msg_ident,
                sector_idx: request.sector_idx,
            }) && stored == older(
                old(self).record_at(request.sector_idx as int),
                Record { timestamp, write_rank, value: data.0@ },
            ) && final(self).record_at(request.sector_idx as int) == accepted(
                old(self).record_at(request.sector_idx as int),
                Record { timestamp, write_rank, value: data.0@ },
            ),
    {
        match self.accept_write(request.sector_idx, timestamp, write_rank, data) {
            Err(_) => None,
            Ok(stored) => Some(
                (
                    SystemRegisterCommand {
                        header: SystemCommandHeader {
                            process_identifier: self_rank,
                            msg_ident: request.msg_ident,
                            sector_idx: request.sector_idx,
                        },
                        content: SystemRegisterCommandContent::Ack,
                    },
                    stored,
                ),
            ),
        }
    }
}

} // verus!
