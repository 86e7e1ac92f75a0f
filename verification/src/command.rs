//! The commands that clients and replicas exchange, and their mathematical model.

use vstd::prelude::*;

verus! {

/// Number of bytes in one sector.
pub const SECTOR_SIZE: usize = 4096;

/// The four bytes with which every frame begins.
pub const MAGIC_NUMBER: [u8; 4] = [0x61, 0x74, 0x64, 0x64];

/// The content of one sector.
#[derive(Debug, Clone, PartialEq, Eq)]
pub struct SectorVec(pub Vec<u8>);

impl SectorVec {
    /// A sector holds exactly `SECTOR_SIZE` bytes.
    pub open spec fn wf(&self) -> bool {
        self.0@.len() == SECTOR_SIZE
    }

    /// Whether the content has the size of a sector.
    pub fn is_valid(&self) -> (ok: bool)
        ensures
            ok == self.wf(),
    {
        self.0.len() == SECTOR_SIZE
    }

    /// The sector that was never written: all zero.
    pub fn zeroed() -> (s: SectorVec)
        ensures
            s.wf(),
            s.0@ == zero_sector(),
    {
        let mut bytes: Vec<u8> = Vec::new();
        let mut i: usize = 0;
        while i < SECTOR_SIZE
            invariant
                i <= SECTOR_SIZE,
                bytes@.len() == i,
                forall|k: int| 0 <= k < i ==> bytes@[k] == 0u8,
            decreases SECTOR_SIZE - i,
        {
            bytes.push(0u8);
            i += 1;
        }
        assert(bytes@ =~= zero_sector());
        SectorVec(bytes)
    }

    /// A copy of this sector.
    pub fn duplicate(&self) -> (s: SectorVec)
        ensures
            s.0@ == self.0@,
    {
        let out = crate::bytes::copy_range(self.0.as_slice(), 0, self.0.len());
        assert(self.0@.subrange(0, self.0@.len() as int) =~= self.0@);
        SectorVec(out)
    }
}

/// The magic number as a byte sequence.
pub open spec fn magic() -> Seq<u8> {
    seq![0x61u8, 0x74u8, 0x64u8, 0x64u8]
}

/// `MAGIC_NUMBER` holds the bytes of `magic`.
pub proof fn lemma_magic_number()
    ensures
        MAGIC_NUMBER@ == magic(),
{
    assert(MAGIC_NUMBER@ =~= magic());
}

/// The content of a sector that was never written.
pub open spec fn zero_sector() -> Seq<u8> {
    Seq::new(SECTOR_SIZE as nat, |i: int| 0u8)
}

#[derive(Debug, Clone, Copy, PartialEq, Eq)]
pub struct ClientCommandHeader {
    pub request_identifier: u64,
    pub sector_idx: u64,
}

#[derive(Debug, Clone, PartialEq, Eq)]
pub enum ClientRegisterCommandContent {
    Read,
    Write { data: SectorVec },
}

#[derive(Debug, Clone, PartialEq, Eq)]
pub struct ClientRegisterCommand {
    pub header: ClientCommandHeader,
    pub content: ClientRegisterCommandContent,
}

#[derive(Debug, Clone, Copy, PartialEq, Eq)]
pub struct SystemCommandHeader {
    pub process_identifier: u8,
    pub msg_ident: u128,
    pub sector_idx: u64,
}

#[derive(Debug, Clone, PartialEq, Eq)]
pub enum SystemRegisterCommandContent {
    ReadProc,
    Value { timestamp: u64, write_rank: u8, sector_data: SectorVec },
    WriteProc { timestamp: u64, write_rank: u8, data_to_write: SectorVec },
    Ack,
}

#[derive(Debug, Clone, PartialEq, Eq)]
pub struct SystemRegisterCommand {
    pub header: SystemCommandHeader,
    pub content: SystemRegisterCommandContent,
}

#[derive(Debug, Clone, PartialEq, Eq)]
pub enum RegisterCommand {
    Client(ClientRegisterCommand),
    System(SystemRegisterCommand),
}

/// What a command says, with sector contents as byte sequences.
pub enum Message {
    Read { request_identifier: u64, sector_idx: u64 },
    Write { request_identifier: u64, sector_idx: u64, data: Seq<u8> },
    ReadProc { process_identifier: u8, msg_ident: u128, sector_idx: u64 },
    Value {
        process_identifier: u8,
        msg_ident: u128,
        sector_idx: u64,
        timestamp: u64,
        write_rank: u8,
        data: Seq<u8>,
    },
    WriteProc {
        process_identifier: u8,
        msg_ident: u128,
        sector_idx: u64,
        timestamp: u64,
        write_rank: u8,
        data: Seq<u8>,
    },
    Ack { process_identifier: u8, msg_ident: u128, sector_idx: u64 },
}

impl Message {
    /// Every sector that the message carries has the size of a sector.
    pub open spec fn wf(self) -> bool {
        match self {
            Message::Write { data, .. } => data.len() == SECTOR_SIZE,
            Message::Value { data, .. } => data.len() == SECTOR_SIZE,
            Message::WriteProc { data, .. } => data.len() == SECTOR_SIZE,
            _ => true,
        }
    }

    /// Whether a client sends the message (else a replica does).
    pub open spec fn from_client(self) -> bool {
        self is Read || self is Write
    }
}

impl View for ClientRegisterCommand {
    type V = Message;

    open spec fn view(&self) -> Message {
        match self.content {
            ClientRegisterCommandContent::Read => Message::Read {
                request_identifier: self.header.request_identifier,
                sector_idx: self.header.sector_idx,
            },
            ClientRegisterCommandContent::Write { data } => Message::Write {
                request_identifier: self.header.request_identifier,
                sector_idx: self.header.sector_idx,
                data: data.0@,
            },
        }
    }
}

impl View for SystemRegisterCommand {
    type V = Message;

    open spec fn view(&self) -> Message {
        match self.content {
            SystemRegisterCommandContent::ReadProc => Message::ReadProc {
                process_identifier: self.header.process_identifier,
                msg_ident: self.header.msg_ident,
                sector_idx: self.header.sector_idx,
            },
            SystemRegisterCommandContent::Value { timestamp, write_rank, sector_data } => {
                Message::Value {
                    process_identifier: self.header.process_identifier,
                    msg_ident: self.header.msg_ident,
                    sector_idx: self.header.sector_idx,
                    timestamp,
                    write_rank,
                    data: sector_data.0@,
                }
            },
            SystemRegisterCommandContent::WriteProc { timestamp, write_rank, data_to_write } => {
                Message::WriteProc {
                    process_identifier: self.header.process_identifier,
                    msg_ident: self.header.msg_ident,
                    sector_idx: self.header.sector_idx,
                    timestamp,
                    write_rank,
                    data: data_to_write.0@,
                }
            },
            SystemRegisterCommandContent::Ack => Message::Ack {
                process_identifier: self.header.process_identifier,
                msg_ident: self.header.msg_ident,
                sector_idx: self.header.sector_idx,
            },
        }
    }
}

impl View for RegisterCommand {
    type V = Message;

    open spec fn view(&self) -> Message {
        match self {
            RegisterCommand::Client(c) => c@,
            RegisterCommand::System(s) => s@,
        }
    }
}

impl RegisterCommand {
    /// Every sector that the command carries has the size of a sector.
    pub open spec fn wf(&self) -> bool {
        self@.wf()
    }
}

/// Why a replica refuses a client's request.
#[derive(Debug, Clone, Copy, PartialEq, Eq, Structural)]
pub enum Rejection {
    /// The request's authentication tag does not match the client key.
    AuthFailure,
    /// The request names a sector that the disk does not have.
    InvalidSectorIndex,
}

/// What a replica answers to a client.
#[derive(Debug, Clone, PartialEq, Eq)]
pub enum ClientResponse {
    /// The sector's content, answering a read.
    ReadOk { request_identifier: u64, data: SectorVec },
    /// Confirmation of a write.
    WriteOk { request_identifier: u64 },
    /// The request was not carried out.
    Rejected { request_identifier: u64, was_write: bool, reason: Rejection },
}

/// What a response says, with sector contents as byte sequences.
pub enum Reply {
    ReadOk { request_identifier: u64, data: Seq<u8> },
    WriteOk { request_identifier: u64 },
    Rejected { request_identifier: u64, was_write: bool, reason: Rejection },
}

impl Reply {
    /// A read's content has the size of a sector.
    pub open spec fn wf(self) -> bool {
        match self {
            Reply::ReadOk { data, .. } => data.len() == SECTOR_SIZE,
            _ => true,
        }
    }
}

impl View for ClientResponse {
    type V = Reply;

    open spec fn view(&self) -> Reply {
        match self {
            ClientResponse::ReadOk { request_identifier, data } => Reply::ReadOk {
                request_identifier: *request_identifier,
                data: data.0@,
            },
            ClientResponse::WriteOk { request_identifier } => Reply::WriteOk {
                request_identifier: *request_identifier,
            },
            ClientResponse::Rejected { request_identifier, was_write, reason } => Reply::Rejected {
                request_identifier: *request_identifier,
                was_write: *was_write,
                reason: *reason,
            },
        }
    }
}

} // verus!
