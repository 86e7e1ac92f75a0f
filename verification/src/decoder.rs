//! Reading commands from a byte stream, and what holds of reading back what
//! was written.

use crate::bytes::{copy_range, range_equals, read_u128, read_u64};
use crate::bytes::{lemma_u128_round_trip, lemma_u64_round_trip, u128_be, u64_be, u64_of_be};
use crate::codec::{
    body, body_len, decoding, find_start, frame, frame_tag, is_frame_start, key_for, parse,
    prefix, recognized, reply_body, reply_frame, status_code, tag_of, Decoded, Decoding,
    Truncated, TAG_ACK, TAG_READ, TAG_READ_PROC, TAG_READ_RESPONSE, TAG_VALUE, TAG_WRITE,
    TAG_WRITE_PROC, TAG_WRITE_RESPONSE,
};
use crate::command::{
    ClientCommandHeader, ClientRegisterCommand, ClientRegisterCommandContent, ClientResponse,
    Message, RegisterCommand, Rejection, Reply, SectorVec, SystemCommandHeader,
    SystemRegisterCommand, SystemRegisterCommandContent, SECTOR_SIZE,
};
use crate::mac::{compute_tag, HMAC_TAG_SIZE};
use vstd::prelude::*;

verus! {

/// Whether a frame may start at `p`.
fn starts_frame(buf: &[u8], p: usize) -> (yes: bool)
    requires
        p + 8 <= buf@.len(),
    ensures
        yes == is_frame_start(buf@, p as int),
{
    let len = buf.len();
    let tag = buf[p + 7];
    buf[p] == 0x61 && buf[p + 1] == 0x74 && buf[p + 2] == 0x64 && buf[p + 3] == 0x64 && TAG_READ
        <= tag && tag <= TAG_ACK
}

/// The length of the body of a message of type `tag`.
fn body_length(tag: u8) -> (n: usize)
    ensures
        n == body_len(tag),
        24 <= n <= 41 + SECTOR_SIZE,
{
    if tag == TAG_READ {
        24
    } else if tag == TAG_WRITE {
        24 + SECTOR_SIZE
    } else if tag == TAG_VALUE || tag == TAG_WRITE_PROC {
        41 + SECTOR_SIZE
    } else {
        32
    }
}

/// The command whose body starts at `p`.
fn parse_at(buf: &[u8], p: usize) -> (cmd: RegisterCommand)
    requires
        is_frame_start(buf@, p as int),
        p + body_len(buf@[p + 7]) <= buf@.len(),
    ensures
        cmd@ == parse(buf@.subrange(p as int, p + body_len(buf@[p + 7]))),
        cmd.wf(),
{
    let len = buf.len();
    let tag = buf[p + 7];
    let ghost b = buf@.subrange(p as int, p + body_len(tag));
    assert(b[7] == tag && b[6] == buf@[p + 6]);
    if tag == TAG_READ || tag == TAG_WRITE {
        let request_identifier = read_u64(buf, p + 8);
        let sector_idx = read_u64(buf, p + 16);
        assert(b.subrange(8, 16) =~= buf@.subrange(p + 8, p + 16));
        assert(b.subrange(16, 24) =~= buf@.subrange(p + 16, p + 24));
        let header = ClientCommandHeader { request_identifier, sector_idx };
        if tag == TAG_READ {
            RegisterCommand::Client(
                ClientRegisterCommand { header, content: ClientRegisterCommandContent::Read },
            )
        } else {
            let data = copy_range(buf, p + 24, p + 24 + SECTOR_SIZE);
            assert(b.subrange(24, 24 + SECTOR_SIZE) =~= buf@.subrange(
                p + 24,
                p + 24 + SECTOR_SIZE,
            ));
            RegisterCommand::Client(
                ClientRegisterCommand {
                    header,
                    content: ClientRegisterCommandContent::Write { data: SectorVec(data) },
                },
            )
        }
    } else {
        let process_identifier = buf[p + 6];
        let msg_ident = read_u128(buf, p + 8);
        let sector_idx = read_u64(buf, p + 24);
        assert(b.subrange(8, 24) =~= buf@.subrange(p + 8, p + 24));
        assert(b.subrange(24, 32) =~= buf@.subrange(p + 24, p + 32));
        let header = SystemCommandHeader { process_identifier, msg_ident, sector_idx };
        if tag == TAG_READ_PROC {
            RegisterCommand::System(
                SystemRegisterCommand { header, content: SystemRegisterCommandContent::ReadProc },
            )
        } else if tag == TAG_ACK {
            RegisterCommand::System(
                SystemRegisterCommand { header, content: SystemRegisterCommandContent::Ack },
            )
        } else {
            let timestamp = read_u64(buf, p + 32);
            let write_rank = buf[p + 40];
            let data = copy_range(buf, p + 41, p + 41 + SECTOR_SIZE);
            assert(b.subrange(32, 40) =~= buf@.subrange(p + 32, p + 40));
            assert(b[40] == buf@[p + 40]);
            assert(b.subrange(41, 41 + SECTOR_SIZE) =~= buf@.subrange(
                p + 41,
                p + 41 + SECTOR_SIZE,
            ));
            if tag == TAG_VALUE {
                RegisterCommand::System(
                    SystemRegisterCommand {
                        header,
                        content: SystemRegisterCommandContent::Value {
                            timestamp,
                            write_rank,
                            sector_data: SectorVec(data),
                        },
                    },
                )
            } else {
                RegisterCommand::System(
                    SystemRegisterCommand {
                        header,
                        content: SystemRegisterCommandContent::WriteProc {
                            timestamp,
                            write_rank,
                            data_to_write: SectorVec(data),
                        },
                    },
                )
            }
        }
    }
}

/// Reads the first command from `buf`, the bytes received so far.
///
/// The frame is looked for at the first position where the magic number is
/// followed by a recognized message type; a magic number followed by another
/// type costs only the step past it. The frame's tag is checked against the
/// system key for a replica's message and against the client key for a
/// request; the outcome is reported in `hmac_valid` and never makes decoding
/// fail. Where the input ends before the frame does, the error says how many
/// leading bytes are of no use.
pub fn deserialize_register_command(
    buf: &[u8],
    hmac_system_key: &[u8],
    hmac_client_key: &[u8],
) -> (r: Result<Decoded, Truncated>)
    ensures
        match decoding(buf@, hmac_system_key@, hmac_client_key@) {
            Decoding::Frame { message, hmac_valid, consumed } => r matches Ok(d) && d.command@
                == message && d.command.wf() && d.hmac_valid == hmac_valid && d.consumed
                == consumed,
            Decoding::Incomplete { discard } => r matches Err(e) && e.discard == discard,
        },
{
    let len = buf.len();
    if len < 8 {
        return Err(Truncated { discard: if len >= 7 { len - 7 } else { 0 } });
    }
    let mut p: usize = 0;
    while p <= len - 8
        invariant
            len == buf@.len(),
            len >= 8,
            p <= len - 7,
            find_start(buf@, 0) == find_start(buf@, p as int),
        decreases len - p,
    {
        if starts_frame(buf, p) {
            let tag = buf[p + 7];
            let n = body_length(tag);
            if len - p < n + HMAC_TAG_SIZE {
                return Err(Truncated { discard: p });
            }
            let command = parse_at(buf, p);
            let key = if TAG_READ_PROC <= tag {
                hmac_system_key
            } else {
                hmac_client_key
            };
            let expected = compute_tag(key, vstd::slice::slice_subrange(buf, p, p + n));
            let hmac_valid = range_equals(buf, p + n, expected.as_slice());
            return Ok(Decoded { command, hmac_valid, consumed: p + n + HMAC_TAG_SIZE });
        }
        p += 1;
    }
    Err(Truncated { discard: len - 7 })
}

/// Where the parts of a request's body stand in it.
proof fn lemma_request_layout(pre: Seq<u8>, id: Seq<u8>, sector: Seq<u8>, data: Seq<u8>)
    requires
        pre.len() == 8,
        id.len() == 8,
        sector.len() == 8,
    ensures
        (pre + id + sector).len() == 24,
        (pre + id + sector).subrange(0, 8) == pre,
        (pre + id + sector).subrange(8, 16) == id,
        (pre + id + sector).subrange(16, 24) == sector,
        (pre + id + sector + data).len() == 24 + data.len(),
        (pre + id + sector + data).subrange(0, 8) == pre,
        (pre + id + sector + data).subrange(8, 16) == id,
        (pre + id + sector + data).subrange(16, 24) == sector,
        (pre + id + sector + data).subrange(24, 24 + data.len() as int) == data,
{
    let b = pre + id + sector;
    let c = b + data;
    assert(b.subrange(0, 8) =~= pre);
    assert(b.subrange(8, 16) =~= id);
    assert(b.subrange(16, 24) =~= sector);
    assert(c.subrange(0, 8) =~= pre);
    assert(c.subrange(8, 16) =~= id);
    assert(c.subrange(16, 24) =~= sector);
    assert(c.subrange(24, 24 + data.len() as int) =~= data);
}

/// Where the parts of a replica message's body stand in it.
proof fn lemma_system_layout(
    pre: Seq<u8>,
    id: Seq<u8>,
    sector: Seq<u8>,
    ts: Seq<u8>,
    rank: u8,
    data: Seq<u8>,
)
    requires
        pre.len() == 8,
        id.len() == 16,
        sector.len() == 8,
        ts.len() == 8,
    ensures
        (pre + id + sector).len() == 32,
        (pre + id + sector).subrange(0, 8) == pre,
        (pre + id + sector).subrange(8, 24) == id,
        (pre + id + sector).subrange(24, 32) == sector,
        (pre + id + sector + ts + seq![rank] + data).len() == 41 + data.len(),
        (pre + id + sector + ts + seq![rank] + data).subrange(0, 8) == pre,
        (pre + id + sector + ts + seq![rank] + data).subrange(8, 24) == id,
        (pre + id + sector + ts + seq![rank] + data).subrange(24, 32) == sector,
        (pre + id + sector + ts + seq![rank] + data).subrange(32, 40) == ts,
        (pre + id + sector + ts + seq![rank] + data)[40] == rank,
        (pre + id + sector + ts + seq![rank] + data).subrange(41, 41 + data.len() as int) == data,
{
    let b = pre + id + sector;
    let c = b + ts + seq![rank] + data;
    assert(b.subrange(0, 8) =~= pre);
    assert(b.subrange(8, 24) =~= id);
    assert(b.subrange(24, 32) =~= sector);
    assert(c.subrange(0, 8) =~= pre);
    assert(c.subrange(8, 24) =~= id);
    assert(c.subrange(24, 32) =~= sector);
    assert(c.subrange(32, 40) =~= ts);
    assert(c.subrange(41, 41 + data.len() as int) =~= data);
}

/// The eight bytes with which a body begins, one by one.
proof fn lemma_prefix_bytes(b: Seq<u8>, role: u8, tag: u8)
    requires
        b.len() >= 8,
        b.subrange(0, 8) == prefix(role, tag),
    ensures
        b[0] == 0x61 && b[1] == 0x74 && b[2] == 0x64 && b[3] == 0x64,
        b[4] == 0 && b[5] == 0 && b[6] == role && b[7] == tag,
{
    let p = b.subrange(0, 8);
    assert(p[0] == b[0] && p[1] == b[1] && p[2] == b[2] && p[3] == b[3]);
    assert(p[4] == b[4] && p[5] == b[5] && p[6] == b[6] && p[7] == b[7]);
}

/// The body of a well-formed message has the length that its type gives,
/// begins with the magic number and a recognized type, and says the message.
pub proof fn lemma_body_parses(m: Message)
    requires
        m.wf(),
    ensures
        body(m).len() == body_len(tag_of(m)),
        body(m)[7] == tag_of(m),
        recognized(tag_of(m)),
        is_frame_start(body(m), 0),
        body(m)[4] == 0 && body(m)[5] == 0,
        parse(body(m)) == m,
{
    let b = body(m);
    let none = Seq::<u8>::empty();
    match m {
        Message::Read { request_identifier, sector_idx } => {
            lemma_u64_round_trip(request_identifier);
            lemma_u64_round_trip(sector_idx);
            lemma_request_layout(
                prefix(0, TAG_READ),
                u64_be(request_identifier),
                u64_be(sector_idx),
                none,
            );
            lemma_prefix_bytes(b, 0, TAG_READ);
        },
        Message::Write { request_identifier, sector_idx, data } => {
            lemma_u64_round_trip(request_identifier);
            lemma_u64_round_trip(sector_idx);
            lemma_request_layout(
                prefix(0, TAG_WRITE),
                u64_be(request_identifier),
                u64_be(sector_idx),
                data,
            );
            lemma_prefix_bytes(b, 0, TAG_WRITE);
        },
        Message::ReadProc { process_identifier, msg_ident, sector_idx } => {
            lemma_u128_round_trip(msg_ident);
            lemma_u64_round_trip(sector_idx);
            lemma_u64_round_trip(0);
            lemma_system_layout(
                prefix(process_identifier, TAG_READ_PROC),
                u128_be(msg_ident),
                u64_be(sector_idx),
                u64_be(0),
                0,
                none,
            );
            lemma_prefix_bytes(b, process_identifier, TAG_READ_PROC);
        },
        Message::Ack { process_identifier, msg_ident, sector_idx } => {
            lemma_u128_round_trip(msg_ident);
            lemma_u64_round_trip(sector_idx);
            lemma_u64_round_trip(0);
            lemma_system_layout(
                prefix(process_identifier, TAG_ACK),
                u128_be(msg_ident),
                u64_be(sector_idx),
                u64_be(0),
                0,
                none,
            );
            lemma_prefix_bytes(b, process_identifier, TAG_ACK);
        },
        Message::Value { process_identifier, msg_ident, sector_idx, timestamp, write_rank, data } => {
            lemma_u128_round_trip(msg_ident);
            lemma_u64_round_trip(sector_idx);
            lemma_u64_round_trip(timestamp);
            lemma_system_layout(
                prefix(process_identifier, TAG_VALUE),
                u128_be(msg_ident),
                u64_be(sector_idx),
                u64_be(timestamp),
                write_rank,
                data,
            );
            lemma_prefix_bytes(b, process_identifier, TAG_VALUE);
        },
        Message::WriteProc {
            process_identifier,
            msg_ident,
            sector_idx,
            timestamp,
            write_rank,
            data,
        } => {
            lemma_u128_round_trip(msg_ident);
            lemma_u64_round_trip(sector_idx);
            lemma_u64_round_trip(timestamp);
            lemma_system_layout(
                prefix(process_identifier, TAG_WRITE_PROC),
                u128_be(msg_ident),
                u64_be(sector_idx),
                u64_be(timestamp),
                write_rank,
                data,
            );
            lemma_prefix_bytes(b, process_identifier, TAG_WRITE_PROC);
        },
    }
}

/// Where no frame may start at any position in `[from, to)`, the search from
/// `from` finds what the search from `to` finds.
pub proof fn lemma_find_start_skips(s: Seq<u8>, from: int, to: int)
    requires
        0 <= from <= to,
        forall|q: int| from <= q < to ==> !is_frame_start(s, q),
    ensures
        find_start(s, from) == find_start(s, to),
    decreases to - from,
{
    if from < to {
        lemma_find_start_skips(s, from + 1, to);
    }
}

/// Decoding after encoding gives the message back: the frame of a well-formed
/// message under `key` decodes to that message and is consumed whole. The tag
/// is reported valid exactly if `key` gives the same tag as the key that the
/// message's type calls for: the system key for a replica's message, the
/// client key for a request.
pub proof fn lemma_round_trip(m: Message, key: Seq<u8>, system_key: Seq<u8>, client_key: Seq<u8>)
    requires
        m.wf(),
    ensures
        decoding(frame(m, key), system_key, client_key) == (Decoding::Frame {
            message: m,
            hmac_valid: frame_tag(key, body(m)) == frame_tag(
                key_for(tag_of(m), system_key, client_key),
                body(m),
            ),
            consumed: frame(m, key).len(),
        }),
        key == key_for(tag_of(m), system_key, client_key) ==> decoding(
            frame(m, key),
            system_key,
            client_key,
        ) == (Decoding::Frame { message: m, hmac_valid: true, consumed: frame(m, key).len() }),
{
    let none = Seq::<u8>::empty();
    lemma_stream_decodes(none, m, key, none, system_key, client_key);
    assert(none + frame(m, key) + none =~= frame(m, key));
}

/// Garbage before a frame is skipped: where no position of `garbage` holds
/// the magic number followed by a recognized message type, the stream of
/// `garbage` and then the frame of a well-formed message decodes to that
/// message, and all of it is consumed.
pub proof fn lemma_resync(
    garbage: Seq<u8>,
    m: Message,
    key: Seq<u8>,
    system_key: Seq<u8>,
    client_key: Seq<u8>,
)
    requires
        m.wf(),
        forall|q: int| 0 <= q < garbage.len() ==> !is_frame_start(garbage, q),
    ensures
        decoding(garbage + frame(m, key), system_key, client_key) == (Decoding::Frame {
            message: m,
            hmac_valid: frame_tag(key, body(m)) == frame_tag(
                key_for(tag_of(m), system_key, client_key),
                body(m),
            ),
            consumed: garbage.len() + frame(m, key).len(),
        }),
{
    let none = Seq::<u8>::empty();
    lemma_stream_decodes(garbage, m, key, none, system_key, client_key);
    assert(garbage + frame(m, key) + none =~= garbage + frame(m, key));
}

/// The stream stays aligned: a frame is found behind garbage whatever
/// follows it, and what is consumed ends where the frame ends, so that
/// decoding can go on with `rest`.
pub proof fn lemma_stream_decodes(
    garbage: Seq<u8>,
    m: Message,
    key: Seq<u8>,
    rest: Seq<u8>,
    system_key: Seq<u8>,
    client_key: Seq<u8>,
)
    requires
        m.wf(),
        forall|q: int| 0 <= q < garbage.len() ==> !is_frame_start(garbage, q),
    ensures
        decoding(garbage + frame(m, key) + rest, system_key, client_key) == (Decoding::Frame {
            message: m,
            hmac_valid: frame_tag(key, body(m)) == frame_tag(
                key_for(tag_of(m), system_key, client_key),
                body(m),
            ),
            consumed: garbage.len() + frame(m, key).len(),
        }),
        (garbage + frame(m, key) + rest).subrange(
            (garbage.len() + frame(m, key).len()) as int,
            (garbage + frame(m, key) + rest).len() as int,
        ) == rest,
{
    lemma_body_parses(m);
    let b = body(m);
    let f = frame(m, key);
    let s = garbage + f + rest;
    let g = garbage.len() as int;
    let n = body_len(tag_of(m)) as int;
    assert forall|q: int| 0 <= q < g implies !is_frame_start(s, q) by {
        if q + 8 <= g {
            assert(!is_frame_start(garbage, q));
            assert(s[q] == garbage[q] && s[q + 1] == garbage[q + 1] && s[q + 2] == garbage[q + 2]
                && s[q + 3] == garbage[q + 3] && s[q + 7] == garbage[q + 7]);
        } else if q + 8 <= s.len() {
            let j = q + 7 - g;
            assert(s[q + 7] == b[j]);
            assert(s[g] == b[0] && b[0] == 0x61);
            assert(b[1] == 0x74 && b[2] == 0x64 && b[3] == 0x64);
            if j == 6 {
                assert(s[q + 1] == b[0]);
            } else if j == 5 {
                assert(s[q + 2] == b[0]);
            } else if j == 4 {
                assert(s[q + 3] == b[0]);
            }
        }
    }
    lemma_find_start_skips(s, 0, g);
    assert(is_frame_start(s, g)) by {
        assert(s[g] == b[0] && s[g + 1] == b[1] && s[g + 2] == b[2] && s[g + 3] == b[3] && s[g + 7]
            == b[7]);
    }
    assert(find_start(s, g) == g);
    assert(s[g + 7] == tag_of(m));
    assert(s.subrange(g, g + n) =~= b);
    assert(s.subrange(g + n, g + n + HMAC_TAG_SIZE) =~= frame_tag(key, b));
    assert(s.subrange(g + f.len(), s.len() as int) =~= rest);
}

/// A decoding with everything moved `d` bytes further into the stream.
pub open spec fn shifted(r: Decoding, d: nat) -> Decoding {
    match r {
        Decoding::Frame { message, hmac_valid, consumed } => Decoding::Frame {
            message,
            hmac_valid,
            consumed: consumed + d,
        },
        Decoding::Incomplete { discard } => Decoding::Incomplete { discard: discard + d },
    }
}

/// The search in a stream without its first `d` bytes finds what the search
/// in the whole stream finds from `d` on.
pub proof fn lemma_find_start_shifts(s: Seq<u8>, d: int, from: int)
    requires
        0 <= d <= s.len(),
        0 <= from,
    ensures
        find_start(s.subrange(d, s.len() as int), from) == if find_start(s, from + d) < 0 {
            -1
        } else {
            find_start(s, from + d) - d
        },
        find_start(s, from + d) >= 0 ==> from + d <= find_start(s, from + d) <= s.len() - 8
            && is_frame_start(s, find_start(s, from + d)),
    decreases s.len() - d - from,
{
    let u = s.subrange(d, s.len() as int);
    if from + 8 <= u.len() {
        assert(u[from] == s[from + d] && u[from + 1] == s[from + d + 1] && u[from + 2] == s[from
            + d + 2] && u[from + 3] == s[from + d + 3] && u[from + 7] == s[from + d + 7]);
        if !is_frame_start(u, from) {
            lemma_find_start_shifts(s, d, from + 1);
        }
    }
}

/// Dropping what an incomplete decoding allows loses nothing: where the
/// bytes `s` received so far hold no whole frame and `d` of them may be
/// discarded, then whatever bytes `more` arrive, decoding the rest of `s`
/// followed by `more` finds what decoding all of `s` followed by `more`
/// finds, `d` bytes earlier.
pub proof fn lemma_discard_keeps_stream(
    s: Seq<u8>,
    more: Seq<u8>,
    system_key: Seq<u8>,
    client_key: Seq<u8>,
)
    requires
        decoding(s, system_key, client_key) is Incomplete,
    ensures
        ({
            let d = decoding(s, system_key, client_key)->discard;
            &&& d <= s.len()
            &&& decoding(s + more, system_key, client_key) == shifted(
                decoding(s.subrange(d as int, s.len() as int) + more, system_key, client_key),
                d,
            )
        }),
{
    let d = decoding(s, system_key, client_key)->discard as int;
    let t = s + more;
    let u = s.subrange(d, s.len() as int) + more;
    lemma_find_start_shifts(s, 0, 0);
    assert(s.subrange(0, s.len() as int) =~= s);
    assert(0 <= d <= s.len());
    assert(t.subrange(d, t.len() as int) =~= u);
    assert forall|q: int| 0 <= q < d implies !is_frame_start(t, q) by {
        assert(q + 8 <= s.len());
        assert(t[q] == s[q] && t[q + 1] == s[q + 1] && t[q + 2] == s[q + 2] && t[q + 3] == s[q
            + 3] && t[q + 7] == s[q + 7]);
        if find_start(s, 0) < 0 {
            lemma_no_start(s, 0, q);
        } else {
            lemma_first_start(s, 0, q);
        }
    }
    lemma_find_start_skips(t, 0, d);
    lemma_find_start_shifts(t, d, 0);
    let p = find_start(t, 0);
    if p >= 0 {
        let n = body_len(t[p + 7]) as int;
        assert(u[p - d + 7] == t[p + 7]);
        if p + n + HMAC_TAG_SIZE <= t.len() {
            assert(u.subrange(p - d, p - d + n) =~= t.subrange(p, p + n));
            assert(u.subrange(p - d + n, p - d + n + HMAC_TAG_SIZE) =~= t.subrange(
                p + n,
                p + n + HMAC_TAG_SIZE,
            ));
        }
    }
}

/// Where the search from `from` finds nothing, no frame may start at `q`.
pub proof fn lemma_no_start(s: Seq<u8>, from: int, q: int)
    requires
        0 <= from <= q,
        find_start(s, from) < 0,
    ensures
        !is_frame_start(s, q),
    decreases q - from,
{
    if from < q && from + 8 <= s.len() {
        lemma_no_start(s, from + 1, q);
    }
}

/// No frame may start before the place that the search from `from` finds.
pub proof fn lemma_first_start(s: Seq<u8>, from: int, q: int)
    requires
        0 <= from <= q < find_start(s, from),
    ensures
        !is_frame_start(s, q),
    decreases q - from,
{
    if from < q {
        lemma_first_start(s, from + 1, q);
    }
}

/// The length of the body of the response that starts `s`, if `s` starts
/// like a response: the magic number, two zero bytes or any others, a status
/// of 0, 1 or 2 and a response type. Only a read that succeeded carries a
/// sector.
pub open spec fn reply_body_len(s: Seq<u8>) -> Option<nat> {
    if s.len() < 16 || s[0] != 0x61 || s[1] != 0x74 || s[2] != 0x64 || s[3] != 0x64 || s[6] > 2
        || (s[7] != TAG_READ_RESPONSE && s[7] != TAG_WRITE_RESPONSE) {
        None
    } else if s[6] == 0 && s[7] == TAG_READ_RESPONSE {
        Some((16 + SECTOR_SIZE) as nat)
    } else {
        Some(16)
    }
}

/// The response that a body says.
pub open spec fn parse_reply(b: Seq<u8>) -> Reply {
    let request_identifier = u64_of_be(b.subrange(8, 16));
    if b[6] == 0 {
        if b[7] == TAG_READ_RESPONSE {
            Reply::ReadOk { request_identifier, data: b.subrange(16, 16 + SECTOR_SIZE) }
        } else {
            Reply::WriteOk { request_identifier }
        }
    } else {
        Reply::Rejected {
            request_identifier,
            was_write: b[7] == TAG_WRITE_RESPONSE,
            reason: if b[6] == 1 {
                Rejection::AuthFailure
            } else {
                Rejection::InvalidSectorIndex
            },
        }
    }
}

/// What a client reads from the start of `s`: the response, whether its tag
/// is the one that `key` gives, and the length of its frame. `None` where
/// `s` does not start with a whole response.
pub open spec fn reply_decoding(s: Seq<u8>, key: Seq<u8>) -> Option<(Reply, bool, nat)> {
    match reply_body_len(s) {
        None => None,
        Some(n) => if s.len() < n + HMAC_TAG_SIZE {
            None
        } else {
            Some(
                (
                    parse_reply(s.subrange(0, n as int)),
                    s.subrange(n as int, n + HMAC_TAG_SIZE) == frame_tag(
                        key,
                        s.subrange(0, n as int),
                    ),
                    (n + HMAC_TAG_SIZE) as nat,
                ),
            )
        },
    }
}

/// A decoded response.
#[derive(Debug, Clone, PartialEq, Eq)]
pub struct DecodedResponse {
    pub response: ClientResponse,
    /// Whether the frame's tag is the one that the client key gives.
    pub hmac_valid: bool,
    /// How many bytes of the input the frame takes.
    pub consumed: usize,
}

/// Reads the response with which `buf` starts. `None` where `buf` does not
/// start with a whole response; an invalid tag is reported, not refused.
pub fn deserialize_response(buf: &[u8], hmac_client_key: &[u8]) -> (r: Option<DecodedResponse>)
    ensures
        match reply_decoding(buf@, hmac_client_key@) {
            Some((reply, hmac_valid, consumed)) => r matches Some(d) && d.response@ == reply
                && d.response@.wf() && d.hmac_valid == hmac_valid && d.consumed == consumed,
            None => r is None,
        },
{
    let len = buf.len();
    if len < 16 || buf[0] != 0x61 || buf[1] != 0x74 || buf[2] != 0x64 || buf[3] != 0x64 {
        return None;
    }
    let status = buf[6];
    let tag = buf[7];
    if status > 2 || (tag != TAG_READ_RESPONSE && tag != TAG_WRITE_RESPONSE) {
        return None;
    }
    let n: usize = if status == 0 && tag == TAG_READ_RESPONSE {
        16 + SECTOR_SIZE
    } else {
        16
    };
    if len < n + HMAC_TAG_SIZE {
        return None;
    }
    let ghost b = buf@.subrange(0, n as int);
    let request_identifier = read_u64(buf, 8);
    assert(b.subrange(8, 16) =~= buf@.subrange(8, 16));
    let response = if status == 0 {
        if tag == TAG_READ_RESPONSE {
            let data = copy_range(buf, 16, 16 + SECTOR_SIZE);
            assert(b.subrange(16, 16 + SECTOR_SIZE) =~= buf@.subrange(16, 16 + SECTOR_SIZE));
            ClientResponse::ReadOk { request_identifier, data: SectorVec(data) }
        } else {
            ClientResponse::WriteOk { request_identifier }
        }
    } else {
        ClientResponse::Rejected {
            request_identifier,
            was_write: tag == TAG_WRITE_RESPONSE,
            reason: if status == 1 {
                Rejection::AuthFailure
            } else {
                Rejection::InvalidSectorIndex
            },
        }
    };
    let expected = compute_tag(hmac_client_key, vstd::slice::slice_subrange(buf, 0, n));
    let hmac_valid = range_equals(buf, n, expected.as_slice());
    Some(DecodedResponse { response, hmac_valid, consumed: n + HMAC_TAG_SIZE })
}

/// A response that was encoded is read back, whatever follows it: the frame
/// of a well-formed response under `key` decodes to that response, and its
/// tag is reported valid exactly if the reader's key gives the same tag.
pub proof fn lemma_reply_round_trip(r: Reply, key: Seq<u8>, reader_key: Seq<u8>, rest: Seq<u8>)
    requires
        r.wf(),
    ensures
        reply_decoding(reply_frame(r, key) + rest, reader_key) == Some(
            (
                r,
                frame_tag(key, reply_body(r)) == frame_tag(reader_key, reply_body(r)),
                reply_frame(r, key).len(),
            ),
        ),
{
    let b = reply_body(r);
    let s = reply_frame(r, key) + rest;
    match r {
        Reply::ReadOk { request_identifier, data } => {
            lemma_u64_round_trip(request_identifier);
            assert(b.subrange(0, 8) =~= prefix(0, TAG_READ_RESPONSE));
            assert(b.subrange(8, 16) =~= u64_be(request_identifier));
            assert(b.subrange(16, 16 + SECTOR_SIZE) =~= data);
            lemma_prefix_bytes(b, 0, TAG_READ_RESPONSE);
        },
        Reply::WriteOk { request_identifier } => {
            lemma_u64_round_trip(request_identifier);
            assert(b.subrange(0, 8) =~= prefix(0, TAG_WRITE_RESPONSE));
            assert(b.subrange(8, 16) =~= u64_be(request_identifier));
            lemma_prefix_bytes(b, 0, TAG_WRITE_RESPONSE);
        },
        Reply::Rejected { request_identifier, was_write, reason } => {
            lemma_u64_round_trip(request_identifier);
            let tag = if was_write {
                TAG_WRITE_RESPONSE
            } else {
                TAG_READ_RESPONSE
            };
            assert(b.subrange(0, 8) =~= prefix(status_code(reason), tag));
            assert(b.subrange(8, 16) =~= u64_be(request_identifier));
            lemma_prefix_bytes(b, status_code(reason), tag);
        },
    }
    let n = b.len() as int;
    assert(s[0] == b[0] && s[1] == b[1] && s[2] == b[2] && s[3] == b[3] && s[6] == b[6] && s[7]
        == b[7]);
    assert(s.subrange(0, n) =~= b);
    assert(s.subrange(n, n + HMAC_TAG_SIZE) =~= frame_tag(key, b));
}

} // verus!
