//! The wire format: frames of bytes, each closed by an authentication tag.
//!
//! A frame is a body followed by the HMAC-SHA256 tag of that body. A body
//! begins with eight bytes: the magic number, two zero bytes, a role byte (the
//! sender's rank for a replica's message, a status for a response, else zero)
//! and the message type. All integers are big-endian.

use crate::bytes::{push_bytes, push_u128, push_u64, u128_be, u128_of_be, u64_be, u64_of_be};
use crate::command::{
    magic, ClientRegisterCommandContent, ClientResponse, Message, RegisterCommand, Rejection,
    Reply, SectorVec, SystemCommandHeader, SystemRegisterCommandContent, SECTOR_SIZE,
};
use crate::mac::{compute_tag, hmac_sha256, HMAC_TAG_SIZE};
use vstd::prelude::*;

verus! {

/// A client's request to read a sector.
pub const TAG_READ: u8 = 0x01;

/// A client's request to write a sector.
pub const TAG_WRITE: u8 = 0x02;

/// A coordinator asks a replica for its record of a sector.
pub const TAG_READ_PROC: u8 = 0x03;

/// A replica's record of a sector, in answer to `TAG_READ_PROC`.
pub const TAG_VALUE: u8 = 0x04;

/// A coordinator offers a record to a replica.
pub const TAG_WRITE_PROC: u8 = 0x05;

/// A replica's answer to `TAG_WRITE_PROC`.
pub const TAG_ACK: u8 = 0x06;

/// The answer to a client's read.
pub const TAG_READ_RESPONSE: u8 = 0x41;

/// The answer to a client's write.
pub const TAG_WRITE_RESPONSE: u8 = 0x42;

/// The eight bytes with which a body begins.
pub open spec fn prefix(role: u8, tag: u8) -> Seq<u8> {
    magic() + seq![0u8, 0u8, role, tag]
}

/// The message types that a replica accepts: requests and replica messages.
pub open spec fn recognized(tag: u8) -> bool {
    TAG_READ <= tag <= TAG_ACK
}

/// The message types that replicas send to each other.
pub open spec fn is_system_tag(tag: u8) -> bool {
    TAG_READ_PROC <= tag <= TAG_ACK
}

/// The message type of `m`.
pub open spec fn tag_of(m: Message) -> u8 {
    match m {
        Message::Read { .. } => TAG_READ,
        Message::Write { .. } => TAG_WRITE,
        Message::ReadProc { .. } => TAG_READ_PROC,
        Message::Value { .. } => TAG_VALUE,
        Message::WriteProc { .. } => TAG_WRITE_PROC,
        Message::Ack { .. } => TAG_ACK,
    }
}

/// The length of the body of a message of type `tag`.
pub open spec fn body_len(tag: u8) -> nat {
    if tag == TAG_READ {
        24
    } else if tag == TAG_WRITE {
        (24 + SECTOR_SIZE) as nat
    } else if tag == TAG_VALUE || tag == TAG_WRITE_PROC {
        (41 + SECTOR_SIZE) as nat
    } else {
        32
    }
}

/// The bytes of `m` that its tag authenticates.
pub open spec fn body(m: Message) -> Seq<u8> {
    match m {
        Message::Read { request_identifier, sector_idx } => prefix(0, TAG_READ) + u64_be(
            request_identifier,
        ) + u64_be(sector_idx),
        Message::Write { request_identifier, sector_idx, data } => prefix(0, TAG_WRITE) + u64_be(
            request_identifier,
        ) + u64_be(sector_idx) + data,
        Message::ReadProc { process_identifier, msg_ident, sector_idx } => prefix(
            process_identifier,
            TAG_READ_PROC,
        ) + u128_be(msg_ident) + u64_be(sector_idx),
        Message::Value { process_identifier, msg_ident, sector_idx, timestamp, write_rank, data } => {
            prefix(process_identifier, TAG_VALUE) + u128_be(msg_ident) + u64_be(sector_idx)
                + u64_be(timestamp) + seq![write_rank] + data
        },
        Message::WriteProc {
            process_identifier,
            msg_ident,
            sector_idx,
            timestamp,
            write_rank,
            data,
        } => {
            prefix(process_identifier, TAG_WRITE_PROC) + u128_be(msg_ident) + u64_be(sector_idx)
                + u64_be(timestamp) + seq![write_rank] + data
        },
        Message::Ack { process_identifier, msg_ident, sector_idx } => prefix(
            process_identifier,
            TAG_ACK,
        ) + u128_be(msg_ident) + u64_be(sector_idx),
    }
}

/// The tag that closes a frame: the HMAC-SHA256 of the body under `key`, at
/// its fixed length of `HMAC_TAG_SIZE` bytes.
pub open spec fn frame_tag(key: Seq<u8>, data: Seq<u8>) -> Seq<u8> {
    let tag = hmac_sha256(key, data);
    if tag.len() == HMAC_TAG_SIZE {
        tag
    } else {
        Seq::new(HMAC_TAG_SIZE as nat, |i: int| 0u8)
    }
}

/// The frame of `m` under `key`: the body, then its tag.
pub open spec fn frame(m: Message, key: Seq<u8>) -> Seq<u8> {
    body(m) + frame_tag(key, body(m))
}

/// The message that a body says. It is read by the type at offset 7; `b` is
/// at least as long as that type's body.
pub open spec fn parse(b: Seq<u8>) -> Message {
    let tag = b[7];
    if tag == TAG_READ {
        Message::Read {
            request_identifier: u64_of_be(b.subrange(8, 16)),
            sector_idx: u64_of_be(b.subrange(16, 24)),
        }
    } else if tag == TAG_WRITE {
        Message::Write {
            request_identifier: u64_of_be(b.subrange(8, 16)),
            sector_idx: u64_of_be(b.subrange(16, 24)),
            data: b.subrange(24, 24 + SECTOR_SIZE),
        }
    } else if tag == TAG_READ_PROC {
        Message::ReadProc {
            process_identifier: b[6],
            msg_ident: u128_of_be(b.subrange(8, 24)),
            sector_idx: u64_of_be(b.subrange(24, 32)),
        }
    } else if tag == TAG_VALUE {
        Message::Value {
            process_identifier: b[6],
            msg_ident: u128_of_be(b.subrange(8, 24)),
            sector_idx: u64_of_be(b.subrange(24, 32)),
            timestamp: u64_of_be(b.subrange(32, 40)),
            write_rank: b[40],
            data: b.subrange(41, 41 + SECTOR_SIZE),
        }
    } else if tag == TAG_WRITE_PROC {
        Message::WriteProc {
            process_identifier: b[6],
            msg_ident: u128_of_be(b.subrange(8, 24)),
            sector_idx: u64_of_be(b.subrange(24, 32)),
            timestamp: u64_of_be(b.subrange(32, 40)),
            write_rank: b[40],
            data: b.subrange(41, 41 + SECTOR_SIZE),
        }
    } else {
        Message::Ack {
            process_identifier: b[6],
            msg_ident: u128_of_be(b.subrange(8, 24)),
            sector_idx: u64_of_be(b.subrange(24, 32)),
        }
    }
}

/// A frame may start at `p`: the magic number stands there, followed, at
/// offset 7, by a recognized message type.
pub open spec fn is_frame_start(s: Seq<u8>, p: int) -> bool {
    &&& 0 <= p
    &&& p + 8 <= s.len()
    &&& s[p] == 0x61
    &&& s[p + 1] == 0x74
    &&& s[p + 2] == 0x64
    &&& s[p + 3] == 0x64
    &&& recognized(s[p + 7])
}

/// The first position from `from` on at which a frame may start, or -1.
pub open spec fn find_start(s: Seq<u8>, from: int) -> int
    decreases s.len() - from,
{
    if from < 0 || from + 8 > s.len() {
        -1
    } else if is_frame_start(s, from) {
        from
    } else {
        find_start(s, from + 1)
    }
}

/// What the bytes received so far decode to.
pub enum Decoding {
    /// A whole frame was found. `consumed` bytes of the stream are used up: the
    /// frame and what stood before it.
    Frame { message: Message, hmac_valid: bool, consumed: nat },
    /// No whole frame is there yet. The first `discard` bytes can never be part
    /// of one.
    Incomplete { discard: nat },
}

/// The key that authenticates a message of type `tag`.
pub open spec fn key_for(tag: u8, system_key: Seq<u8>, client_key: Seq<u8>) -> Seq<u8> {
    if is_system_tag(tag) {
        system_key
    } else {
        client_key
    }
}

/// What a replica reads from the stream `s`: the frame at the first position
/// where the magic number is followed by a recognized type. Bytes before it
/// are skipped. The tag is compared and reported, never a reason to fail.
pub open spec fn decoding(s: Seq<u8>, system_key: Seq<u8>, client_key: Seq<u8>) -> Decoding {
    let p = find_start(s, 0);
    if p < 0 {
        Decoding::Incomplete { discard: if s.len() >= 7 { (s.len() - 7) as nat } else { 0 } }
    } else {
        let tag = s[p + 7];
        let n = body_len(tag);
        if p + n + HMAC_TAG_SIZE > s.len() {
            Decoding::Incomplete { discard: p as nat }
        } else {
            let b = s.subrange(p, p + n);
            Decoding::Frame {
                message: parse(b),
                hmac_valid: s.subrange(p + n, p + n + HMAC_TAG_SIZE) == frame_tag(
                    key_for(tag, system_key, client_key),
                    b,
                ),
                consumed: (p + n + HMAC_TAG_SIZE) as nat,
            }
        }
    }
}

/// Why a message cannot be encoded.
#[derive(Debug, Clone, Copy, PartialEq, Eq, Structural)]
pub enum EncodeError {
    /// A sector in it does not hold exactly `SECTOR_SIZE` bytes.
    SectorSize,
}

/// A decoded command.
#[derive(Debug, Clone, PartialEq, Eq)]
pub struct Decoded {
    pub command: RegisterCommand,
    /// Whether the frame's tag is the one that the key for its type gives.
    pub hmac_valid: bool,
    /// How many bytes of the input the frame and what preceded it take.
    pub consumed: usize,
}

/// The input ends before a whole frame.
#[derive(Debug, Clone, Copy, PartialEq, Eq, Structural)]
pub struct Truncated {
    /// How many bytes at the start of the input can be dropped before more
    /// input is appended and decoding is tried again.
    pub discard: usize,
}

fn push_prefix(sink: &mut Vec<u8>, role: u8, tag: u8)
    ensures
        final(sink)@ == old(sink)@ + prefix(role, tag),
{
    let ghost before = sink@;
    sink.push(0x61);
    sink.push(0x74);
    sink.push(0x64);
    sink.push(0x64);
    sink.push(0);
    sink.push(0);
    sink.push(role);
    sink.push(tag);
    assert(sink@ =~= before + prefix(role, tag));
}

/// Whether every sector in `cmd` has the size of a sector.
pub fn command_is_valid(cmd: &RegisterCommand) -> (ok: bool)
    ensures
        ok == cmd.wf(),
{
    match cmd {
        RegisterCommand::Client(c) => match &c.content {
            ClientRegisterCommandContent::Read => true,
            ClientRegisterCommandContent::Write { data } => data.is_valid(),
        },
        RegisterCommand::System(s) => match &s.content {
            SystemRegisterCommandContent::ReadProc => true,
            SystemRegisterCommandContent::Value { sector_data, .. } => sector_data.is_valid(),
            SystemRegisterCommandContent::WriteProc { data_to_write, .. } => data_to_write.is_valid(),
            SystemRegisterCommandContent::Ack => true,
        },
    }
}

fn push_system_header(sink: &mut Vec<u8>, header: &SystemCommandHeader, tag: u8)
    ensures
        final(sink)@ == old(sink)@ + prefix(header.process_identifier, tag) + u128_be(
            header.msg_ident,
        ) + u64_be(header.sector_idx),
{
    push_prefix(sink, header.process_identifier, tag);
    push_u128(sink, header.msg_ident);
    push_u64(sink, header.sector_idx);
}

fn push_record(sink: &mut Vec<u8>, timestamp: u64, write_rank: u8, data: &SectorVec)
    ensures
        final(sink)@ == old(sink)@ + u64_be(timestamp) + seq![write_rank] + data.0@,
{
    let ghost before = sink@;
    push_u64(sink, timestamp);
    sink.push(write_rank);
    assert(sink@ =~= before + u64_be(timestamp) + seq![write_rank]);
    push_bytes(sink, data.0.as_slice());
}

fn encode_body(cmd: &RegisterCommand) -> (out: Vec<u8>)
    ensures
        out@ == body(cmd@),
{
    let mut out: Vec<u8> = Vec::new();
    assert(out@ + prefix(0, TAG_READ) =~= prefix(0, TAG_READ));
    assert(out@ + prefix(0, TAG_WRITE) =~= prefix(0, TAG_WRITE));
    match cmd {
        RegisterCommand::Client(c) => {
            match &c.content {
                ClientRegisterCommandContent::Read => {
                    push_prefix(&mut out, 0, TAG_READ);
                    push_u64(&mut out, c.header.request_identifier);
                    push_u64(&mut out, c.header.sector_idx);
                },
                ClientRegisterCommandContent::Write { data } => {
                    push_prefix(&mut out, 0, TAG_WRITE);
                    push_u64(&mut out, c.header.request_identifier);
                    push_u64(&mut out, c.header.sector_idx);
                    push_bytes(&mut out, data.0.as_slice());
                },
            }
        },
        RegisterCommand::System(s) => {
            let ghost pid = s.header.process_identifier;
            match &s.content {
                SystemRegisterCommandContent::ReadProc => {
                    assert(out@ + prefix(pid, TAG_READ_PROC) =~= prefix(pid, TAG_READ_PROC));
                    push_system_header(&mut out, &s.header, TAG_READ_PROC);
                },
                SystemRegisterCommandContent::Value { timestamp, write_rank, sector_data } => {
                    assert(out@ + prefix(pid, TAG_VALUE) =~= prefix(pid, TAG_VALUE));
                    push_system_header(&mut out, &s.header, TAG_VALUE);
                    push_record(&mut out, *timestamp, *write_rank, sector_data);
                },
                SystemRegisterCommandContent::WriteProc { timestamp, write_rank, data_to_write } => {
                    assert(out@ + prefix(pid, TAG_WRITE_PROC) =~= prefix(pid, TAG_WRITE_PROC));
                    push_system_header(&mut out, &s.header, TAG_WRITE_PROC);
                    push_record(&mut out, *timestamp, *write_rank, data_to_write);
                },
                SystemRegisterCommandContent::Ack => {
                    assert(out@ + prefix(pid, TAG_ACK) =~= prefix(pid, TAG_ACK));
                    push_system_header(&mut out, &s.header, TAG_ACK);
                },
            }
        },
    }
    out
}

/// Appends the frame of `cmd` under `hmac_key` to `sink`. A command with a
/// sector of the wrong size is refused, and `sink` is left as it was.
pub fn serialize_register_command(
    cmd: &RegisterCommand,
    sink: &mut Vec<u8>,
    hmac_key: &[u8],
) -> (r: Result<(), EncodeError>)
    ensures
        r is Ok <==> cmd.wf(),
        r is Ok ==> final(sink)@ == old(sink)@ + frame(cmd@, hmac_key@),
        r is Err ==> final(sink)@ == old(sink)@ && r == Err::<(), EncodeError>(
            EncodeError::SectorSize,
        ),
{
    if !command_is_valid(cmd) {
        return Err(EncodeError::SectorSize);
    }
    let ghost before = sink@;
    let encoded = encode_body(cmd);
    let tag = compute_tag(hmac_key, encoded.as_slice());
    push_bytes(sink, encoded.as_slice());
    push_bytes(sink, tag.as_slice());
    assert(sink@ =~= before + frame(cmd@, hmac_key@));
    Ok(())
}

/// The status byte of a response that refuses a request.
pub open spec fn status_code(reason: Rejection) -> u8 {
    match reason {
        Rejection::AuthFailure => 1,
        Rejection::InvalidSectorIndex => 2,
    }
}

/// The bytes of a response that its tag authenticates: the prefix with the
/// status as role byte (zero for success) and the response type, the
/// request's identifier, and for a successful read the sector.
pub open spec fn reply_body(r: Reply) -> Seq<u8> {
    match r {
        Reply::ReadOk { request_identifier, data } => prefix(0, TAG_READ_RESPONSE) + u64_be(
            request_identifier,
        ) + data,
        Reply::WriteOk { request_identifier } => prefix(0, TAG_WRITE_RESPONSE) + u64_be(
            request_identifier,
        ),
        Reply::Rejected { request_identifier, was_write, reason } => prefix(
            status_code(reason),
            if was_write {
                TAG_WRITE_RESPONSE
            } else {
                TAG_READ_RESPONSE
            },
        ) + u64_be(request_identifier),
    }
}

/// The frame of a response under the client key.
pub open spec fn reply_frame(r: Reply, key: Seq<u8>) -> Seq<u8> {
    reply_body(r) + frame_tag(key, reply_body(r))
}

/// The length of the frame of a response: 48 bytes, and a sector more for a
/// successful read.
pub open spec fn reply_frame_len(r: Reply) -> nat {
    if r is ReadOk {
        (48 + SECTOR_SIZE) as nat
    } else {
        48
    }
}

/// Appends the frame of `response` under `hmac_client_key` to `sink`. A
/// response with a sector of the wrong size is refused, and `sink` is left as
/// it was.
pub fn serialize_response(
    response: &ClientResponse,
    sink: &mut Vec<u8>,
    hmac_client_key: &[u8],
) -> (r: Result<(), EncodeError>)
    ensures
        r is Ok <==> response@.wf(),
        r is Ok ==> final(sink)@ == old(sink)@ + reply_frame(response@, hmac_client_key@)
            && reply_frame(response@, hmac_client_key@).len() == reply_frame_len(response@),
        r is Err ==> final(sink)@ == old(sink)@ && r == Err::<(), EncodeError>(
            EncodeError::SectorSize,
        ),
{
    let ghost before = sink@;
    let mut encoded: Vec<u8> = Vec::new();
    proof {
        assert forall|role: u8, tag: u8| encoded@ + prefix(role, tag) == #[trigger] prefix(
            role,
            tag,
        ) by {
            assert(encoded@ + prefix(role, tag) =~= prefix(role, tag));
        }
    }
    match response {
        ClientResponse::ReadOk { request_identifier, data } => {
            if !data.is_valid() {
                return Err(EncodeError::SectorSize);
            }
            push_prefix(&mut encoded, 0, TAG_READ_RESPONSE);
            push_u64(&mut encoded, *request_identifier);
            assert(encoded@.len() == 16);
            push_bytes(&mut encoded, data.0.as_slice());
        },
        ClientResponse::WriteOk { request_identifier } => {
            push_prefix(&mut encoded, 0, TAG_WRITE_RESPONSE);
            push_u64(&mut encoded, *request_identifier);
            assert(encoded@.len() == 16);
        },
        ClientResponse::Rejected { request_identifier, was_write, reason } => {
            let status: u8 = match reason {
                Rejection::AuthFailure => 1,
                Rejection::InvalidSectorIndex => 2,
            };
            let tag: u8 = if *was_write {
                TAG_WRITE_RESPONSE
            } else {
                TAG_READ_RESPONSE
            };
            push_prefix(&mut encoded, status, tag);
            push_u64(&mut encoded, *request_identifier);
            assert(encoded@.len() == 16);
        },
    }
    let tag = compute_tag(hmac_client_key, encoded.as_slice());
    push_bytes(sink, encoded.as_slice());
    push_bytes(sink, tag.as_slice());
    assert(sink@ =~= before + reply_frame(response@, hmac_client_key@));
    Ok(())
}

} // verus!
