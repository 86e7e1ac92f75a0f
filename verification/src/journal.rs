//! How a replica's state is written down, to be read after a restart.
//!
//! A sector's record is written as the frame of a `Value` message under the
//! system key. A pending operation is noted in two frames: the client's
//! request under the client key, then, under the system key, the message
//! with which the operation is taken up again: a `ReadProc` while nothing is
//! decided, else the `WriteProc` that carries the record to write back.
//! Bytes whose tags do not match say nothing.

use crate::codec::{decoding, frame, serialize_register_command, Decoding};
use crate::command::{
    zero_sector, ClientCommandHeader, ClientRegisterCommand, ClientRegisterCommandContent,
    Message, RegisterCommand, SectorVec, SystemCommandHeader, SystemRegisterCommand,
    SystemRegisterCommandContent, SECTOR_SIZE,
};
use crate::decoder::{deserialize_register_command, lemma_round_trip, lemma_stream_decodes};
use crate::register::{resumption_of, undecided};
use crate::storage::{Pending, PendingOperation, Record, SectorRecord};
use vstd::prelude::*;

verus! {

/// The request that started `op`.
pub open spec fn request_of(op: Pending) -> Message {
    if op.is_write {
        Message::Write {
            request_identifier: op.request_identifier,
            sector_idx: op.sector_idx,
            data: op.data,
        }
    } else {
        Message::Read { request_identifier: op.request_identifier, sector_idx: op.sector_idx }
    }
}

/// The operation that a request and a resumption message note, if they go
/// together: a client's request, and a `ReadProc` or `WriteProc` for the
/// same sector.
pub open spec fn noted(request: Message, resumption: Message) -> Option<Pending> {
    if !request.from_client() {
        None
    } else {
        match resumption {
            Message::ReadProc { msg_ident, sector_idx, .. } => {
                let op = undecided(request, msg_ident);
                if op.sector_idx == sector_idx {
                    Some(op)
                } else {
                    None
                }
            },
            Message::WriteProc { msg_ident, sector_idx, timestamp, write_rank, data, .. } => {
                let op = undecided(request, msg_ident);
                if op.sector_idx == sector_idx {
                    Some(Pending { decided: true, timestamp, write_rank, data, ..op })
                } else {
                    None
                }
            },
            _ => None,
        }
    }
}

/// The bytes that note `op` at the process of rank `self_rank`.
pub open spec fn note_bytes(
    op: Pending,
    self_rank: u8,
    system_key: Seq<u8>,
    client_key: Seq<u8>,
) -> Seq<u8> {
    frame(request_of(op), client_key) + frame(resumption_of(op, self_rank), system_key)
}

/// The operation that the bytes `s` note: they hold two frames with valid
/// tags, one after the other from the start on, that go together.
pub open spec fn note_in(s: Seq<u8>, system_key: Seq<u8>, client_key: Seq<u8>) -> Option<Pending> {
    match decoding(s, system_key, client_key) {
        Decoding::Frame { message: request, hmac_valid: true, consumed } => {
            match decoding(s.subrange(consumed as int, s.len() as int), system_key, client_key) {
                Decoding::Frame { message: resumption, hmac_valid: true, .. } => noted(
                    request,
                    resumption,
                ),
                _ => None,
            }
        },
        _ => None,
    }
}

/// An operation as a coordinator holds it: data of a sector's size, and,
/// while nothing is decided, no stamp, and for a read no data but zeros.
pub open spec fn canonical(op: Pending) -> bool {
    &&& op.data.len() == SECTOR_SIZE
    &&& !op.decided ==> op.timestamp == 0 && op.write_rank == 0
    &&& !op.decided && !op.is_write ==> op.data == zero_sector()
}

/// The bytes that note `op`. `None` for data of the wrong size.
pub fn encode_note(op: &PendingOperation, self_rank: u8, system_key: &[u8], client_key: &[u8]) -> (r:
    Option<Vec<u8>>)
    ensures
        r is Some <==> op.data.wf(),
        r matches Some(bytes) ==> bytes@ == note_bytes(op@, self_rank, system_key@, client_key@),
{
    if !op.data.is_valid() {
        return None;
    }
    let request = RegisterCommand::Client(
        ClientRegisterCommand {
            header: ClientCommandHeader {
                request_identifier: op.request_identifier,
                sector_idx: op.sector_idx,
            },
            content: if op.is_write {
                ClientRegisterCommandContent::Write { data: op.data.duplicate() }
            } else {
                ClientRegisterCommandContent::Read
            },
        },
    );
    let resumption = RegisterCommand::System(
        SystemRegisterCommand {
            header: SystemCommandHeader {
                process_identifier: self_rank,
                msg_ident: op.msg_ident,
                sector_idx: op.sector_idx,
            },
            content: if op.decided {
                SystemRegisterCommandContent::WriteProc {
                    timestamp: op.timestamp,
                    write_rank: op.write_rank,
                    data_to_write: op.data.duplicate(),
                }
            } else {
                SystemRegisterCommandContent::ReadProc
            },
        },
    );
    let mut bytes: Vec<u8> = Vec::new();
    if serialize_register_command(&request, &mut bytes, client_key).is_err() {
        return None;
    }
    if serialize_register_command(&resumption, &mut bytes, system_key).is_err() {
        return None;
    }
    assert(bytes@ =~= note_bytes(op@, self_rank, system_key@, client_key@));
    Some(bytes)
}

/// The operation that `bytes` note, if they note one.
pub fn decode_note(bytes: &[u8], system_key: &[u8], client_key: &[u8]) -> (r: Option<
    PendingOperation,
>)
    ensures
        match note_in(bytes@, system_key@, client_key@) {
            Some(op) => r matches Some(found) && found@ == op && found.data.wf(),
            None => r is None,
        },
{
    let first = match deserialize_register_command(bytes, system_key, client_key) {
        Ok(first) => first,
        Err(_) => {
            return None;
        },
    };
    if !first.hmac_valid {
        return None;
    }
    let rest = vstd::slice::slice_subrange(bytes, first.consumed, bytes.len());
    let second = match deserialize_register_command(rest, system_key, client_key) {
        Ok(second) => second,
        Err(_) => {
            return None;
        },
    };
    if !second.hmac_valid {
        return None;
    }
    let request = match first.command {
        RegisterCommand::Client(request) => request,
        RegisterCommand::System(_) => {
            return None;
        },
    };
    let resumption = match second.command {
        RegisterCommand::System(resumption) => resumption,
        RegisterCommand::Client(_) => {
            return None;
        },
    };
    if resumption.header.sector_idx != request.header.sector_idx {
        return None;
    }
    let (is_write, data) = match request.content {
        ClientRegisterCommandContent::Write { data } => (true, data),
        ClientRegisterCommandContent::Read => (false, SectorVec::zeroed()),
    };
    let (decided, timestamp, write_rank, data) = match resumption.content {
        SystemRegisterCommandContent::ReadProc => (false, 0, 0, data),
        SystemRegisterCommandContent::WriteProc { timestamp, write_rank, data_to_write } => (
            true,
            timestamp,
            write_rank,
            data_to_write,
        ),
        _ => {
            return None;
        },
    };
    Some(
        PendingOperation {
            msg_ident: resumption.header.msg_ident,
            request_identifier: request.header.request_identifier,
            sector_idx: request.header.sector_idx,
            is_write,
            decided,
            timestamp,
            write_rank,
            data,
        },
    )
}

/// What was noted is read back: the bytes that note a canonical operation
/// note that operation, whatever the keys and the rank.
pub proof fn lemma_note_round_trip(
    op: Pending,
    self_rank: u8,
    system_key: Seq<u8>,
    client_key: Seq<u8>,
)
    requires
        canonical(op),
    ensures
        note_in(note_bytes(op, self_rank, system_key, client_key), system_key, client_key) == Some(
            op,
        ),
{
    let request = request_of(op);
    let resumption = resumption_of(op, self_rank);
    let second = frame(resumption, system_key);
    let none = Seq::<u8>::empty();
    let s = note_bytes(op, self_rank, system_key, client_key);
    lemma_stream_decodes(none, request, client_key, second, system_key, client_key);
    assert(none + frame(request, client_key) + second =~= s);
    lemma_round_trip(resumption, system_key, system_key, client_key);
    assert(noted(request, resumption) == Some(op));
}

/// The message that holds the record `rec` of sector `sector_idx`.
pub open spec fn record_message(rec: Record, sector_idx: u64, self_rank: u8) -> Message {
    Message::Value {
        process_identifier: self_rank,
        msg_ident: 0,
        sector_idx,
        timestamp: rec.timestamp,
        write_rank: rec.write_rank,
        data: rec.value,
    }
}

/// The sector and the record that the bytes `s` hold: they start with the
/// frame of a `Value` message whose tag is valid under `system_key`.
pub open spec fn record_in(s: Seq<u8>, system_key: Seq<u8>) -> Option<(u64, Record)> {
    match decoding(s, system_key, system_key) {
        Decoding::Frame {
            message: Message::Value { sector_idx, timestamp, write_rank, data, .. },
            hmac_valid: true,
            ..
        } => Some((sector_idx, Record { timestamp, write_rank, value: data })),
        _ => None,
    }
}

/// The bytes that hold the record `rec` of sector `sector_idx`. `None` for
/// content of the wrong size.
pub fn encode_record(rec: &SectorRecord, sector_idx: u64, self_rank: u8, system_key: &[u8]) -> (r:
    Option<Vec<u8>>)
    ensures
        r is Some <==> rec.value.wf(),
        r matches Some(bytes) ==> bytes@ == frame(
            record_message(rec@, sector_idx, self_rank),
            system_key@,
        ),
{
    if !rec.value.is_valid() {
        return None;
    }
    let value = RegisterCommand::System(
        SystemRegisterCommand {
            header: SystemCommandHeader {
                process_identifier: self_rank,
                msg_ident: 0,
                sector_idx,
            },
            content: SystemRegisterCommandContent::Value {
                timestamp: rec.timestamp,
                write_rank: rec.write_rank,
                sector_data: rec.value.duplicate(),
            },
        },
    );
    let mut bytes: Vec<u8> = Vec::new();
    if serialize_register_command(&value, &mut bytes, system_key).is_err() {
        return None;
    }
    assert(bytes@ =~= frame(record_message(rec@, sector_idx, self_rank), system_key@));
    Some(bytes)
}

/// The sector and the record that `bytes` hold, if they hold one.
pub fn decode_record(bytes: &[u8], system_key: &[u8]) -> (r: Option<(u64, SectorRecord)>)
    ensures
        match record_in(bytes@, system_key@) {
            Some((sector_idx, rec)) => r matches Some(found) && found.0 == sector_idx
                && found.1@ == rec && found.1.value.wf(),
            None => r is None,
        },
{
    let decoded = match deserialize_register_command(bytes, system_key, system_key) {
        Ok(decoded) => decoded,
        Err(_) => {
            return None;
        },
    };
    if !decoded.hmac_valid {
        return None;
    }
    match decoded.command {
        RegisterCommand::System(
            SystemRegisterCommand {
                header,
                content: SystemRegisterCommandContent::Value { timestamp, write_rank, sector_data },
            },
        ) => Some(
            (header.sector_idx, SectorRecord { timestamp, write_rank, value: sector_data }),
        ),
        _ => None,
    }
}

/// A record that was written is read back, with its sector.
pub proof fn lemma_record_round_trip(
    rec: Record,
    sector_idx: u64,
    self_rank: u8,
    system_key: Seq<u8>,
)
    requires
        rec.value.len() == SECTOR_SIZE,
    ensures
        record_in(frame(record_message(rec, sector_idx, self_rank), system_key), system_key)
            == Some((sector_idx, rec)),
{
    lemma_round_trip(record_message(rec, sector_idx, self_rank), system_key, system_key, system_key);
}

} // verus!
