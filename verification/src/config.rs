//! The configuration of a process, read from the text of its configuration
//! file.
//!
//! The text is taken line by line: the system key, the client key, the
//! number of sectors, then for each process its host on one line and its
//! port on the next. Numbers are decimal, with an optional `+` in front.

use crate::bytes::copy_range;
use vstd::prelude::*;

verus! {

/// What a process is configured with.
#[derive(Debug, Clone, PartialEq, Eq)]
pub struct Configuration {
    pub hmac_system_key: Vec<u8>,
    pub hmac_client_key: Vec<u8>,
    /// Host and port of each process, the process of rank 1 first. A host is
    /// kept as the bytes of its line.
    pub tcp_locations: Vec<(Vec<u8>, u16)>,
    pub self_rank: u8,
    pub n_sectors: u64,
}

/// The first position from `from` on that holds a line feed, or the length
/// of `s` if none does.
pub open spec fn first_newline(s: Seq<u8>, from: int) -> int
    decreases s.len() - from,
{
    if from < 0 || from >= s.len() {
        s.len() as int
    } else if s[from] == 10 {
        from
    } else {
        first_newline(s, from + 1)
    }
}

/// A line without the carriage return that may end it.
pub open spec fn strip_cr(line: Seq<u8>) -> Seq<u8> {
    if line.len() > 0 && line.last() == 13 {
        line.drop_last()
    } else {
        line
    }
}

/// The lines of `s` from position `from` on. A line ends at a line feed,
/// which is not part of it, nor is a carriage return just before the line
/// feed. What follows the last line feed is a line if it is not empty.
pub open spec fn lines_from(s: Seq<u8>, from: int) -> Seq<Seq<u8>>
    decreases s.len() - from,
{
    if from < 0 || from >= s.len() {
        Seq::empty()
    } else {
        let e = first_newline(s, from);
        if e < from || e >= s.len() {
            seq![s.subrange(from, s.len() as int)]
        } else {
            seq![strip_cr(s.subrange(from, e))] + lines_from(s, e + 1)
        }
    }
}

/// The lines of `s`.
pub open spec fn lines_of(s: Seq<u8>) -> Seq<Seq<u8>> {
    lines_from(s, 0)
}

/// The value of the decimal digit `b`; zero for another byte.
pub open spec fn digit_value(b: u8) -> nat {
    if 48 <= b <= 57 {
        (b - 48) as nat
    } else {
        0
    }
}

/// The number that the digits `s` write.
pub open spec fn digits_value(s: Seq<u8>) -> nat
    decreases s.len(),
{
    if s.len() == 0 {
        0
    } else {
        digits_value(s.drop_last()) * 10 + digit_value(s.last())
    }
}

/// Whether every byte of `s` is a decimal digit.
pub open spec fn all_digits(s: Seq<u8>) -> bool {
    forall|i: int| 0 <= i < s.len() ==> 48 <= #[trigger] s[i] <= 57
}

/// A line without the `+` that may stand in front of a number.
pub open spec fn unsigned_part(line: Seq<u8>) -> Seq<u8> {
    if line.len() > 0 && line[0] == 43 {
        line.subrange(1, line.len() as int)
    } else {
        line
    }
}

/// The number that `line` writes.
pub open spec fn decimal_value(line: Seq<u8>) -> nat {
    digits_value(unsigned_part(line))
}

/// Whether `line` writes a number of at most `max`: at least one digit,
/// nothing but digits after an optional `+`.
pub open spec fn is_decimal(line: Seq<u8>, max: nat) -> bool {
    &&& unsigned_part(line).len() > 0
    &&& all_digits(unsigned_part(line))
    &&& decimal_value(line) <= max
}

/// The line that holds the host of the process of rank `i + 1`.
pub open spec fn host_line(lines: Seq<Seq<u8>>, i: int) -> Seq<u8> {
    lines[3 + 2 * i]
}

/// The line that holds the port of the process of rank `i + 1`.
pub open spec fn port_line(lines: Seq<Seq<u8>>, i: int) -> Seq<u8> {
    lines[4 + 2 * i]
}

/// Whether `text` is a configuration: at least three lines, of which the
/// first has 64 bytes, the second 32 and the third writes a 64-bit number,
/// and after them pairs of lines, the second of each pair writing a 16-bit
/// number.
pub open spec fn config_ok(text: Seq<u8>) -> bool {
    let lines = lines_of(text);
    &&& lines.len() >= 3
    &&& lines[0].len() == 64
    &&& lines[1].len() == 32
    &&& is_decimal(lines[2], u64::MAX as nat)
    &&& (lines.len() - 3) % 2 == 0
    &&& forall|i: int|
        0 <= i < (lines.len() - 3) / 2 ==> is_decimal(#[trigger] port_line(lines, i), 65535)
}

/// Whether `c` is what `text` configures the process of rank `self_rank`
/// with.
pub open spec fn configured(c: Configuration, text: Seq<u8>, self_rank: u8) -> bool {
    let lines = lines_of(text);
    &&& c.self_rank == self_rank
    &&& c.hmac_system_key@ == lines[0]
    &&& c.hmac_system_key@.len() == 64
    &&& c.hmac_client_key@ == lines[1]
    &&& c.hmac_client_key@.len() == 32
    &&& c.n_sectors == decimal_value(lines[2])
    &&& c.tcp_locations@.len() == (lines.len() - 3) / 2
    &&& forall|i: int|
        0 <= i < c.tcp_locations@.len() ==> (#[trigger] c.tcp_locations@[i]).0@ == host_line(
            lines,
            i,
        ) && c.tcp_locations@[i].1 == decimal_value(port_line(lines, i))
}

/// Where the first line feed from `from` on stands.
pub proof fn lemma_first_newline(s: Seq<u8>, from: int)
    requires
        0 <= from <= s.len(),
    ensures
        from <= first_newline(s, from) <= s.len(),
        first_newline(s, from) < s.len() ==> s[first_newline(s, from)] == 10,
        forall|i: int| from <= i < first_newline(s, from) ==> s[i] != 10,
    decreases s.len() - from,
{
    if from < s.len() && s[from] != 10 {
        lemma_first_newline(s, from + 1);
    }
}

/// The first digits of a number write no more than all of them.
pub proof fn lemma_digits_prefix(s: Seq<u8>, k: int)
    requires
        0 <= k <= s.len(),
    ensures
        digits_value(s.subrange(0, k)) <= digits_value(s),
    decreases s.len(),
{
    if k == s.len() {
        assert(s.subrange(0, k) =~= s);
    } else {
        lemma_digits_prefix(s.drop_last(), k);
        assert(s.drop_last().subrange(0, k) =~= s.subrange(0, k));
    }
}

/// The line that starts at `from`: where it ends, and where the next one
/// starts.
fn next_line(text: &[u8], from: usize) -> (r: (usize, usize))
    requires
        from < text@.len(),
    ensures
        from <= r.0 <= r.1 <= text@.len(),
        from < r.1,
        lines_from(text@, from as int) == seq![text@.subrange(from as int, r.0 as int)]
            + lines_from(text@, r.1 as int),
{
    let len = text.len();
    let ghost s = text@;
    let mut i: usize = from;
    while i < len && text[i] != 10
        invariant
            len == text@.len(),
            s == text@,
            from <= i <= len,
            first_newline(s, from as int) == first_newline(s, i as int),
        decreases len - i,
    {
        i += 1;
    }
    proof {
        lemma_first_newline(s, from as int);
    }
    if i == len {
        assert(seq![s.subrange(from as int, len as int)] + lines_from(s, len as int) =~= seq![
            s.subrange(from as int, len as int),
        ]);
        (len, len)
    } else {
        let end = if i > from && text[i - 1] == 13 {
            i - 1
        } else {
            i
        };
        assert(strip_cr(s.subrange(from as int, i as int)) =~= s.subrange(from as int, end as int));
        (end, i + 1)
    }
}

/// The number that `text[start..end]` writes, if it writes one of at most
/// `max`.
fn parse_decimal(text: &[u8], start: usize, end: usize, max: u64) -> (r: Option<u64>)
    requires
        start <= end <= text@.len(),
    ensures
        r is Some <==> is_decimal(text@.subrange(start as int, end as int), max as nat),
        r matches Some(v) ==> v == decimal_value(text@.subrange(start as int, end as int)),
{
    let len = text.len();
    let begin = if start < end && text[start] == 43 {
        start + 1
    } else {
        start
    };
    let ghost line = text@.subrange(start as int, end as int);
    let ghost t = text@.subrange(begin as int, end as int);
    assert(t =~= unsigned_part(line));
    if begin == end {
        return None;
    }
    let mut acc: u64 = 0;
    let mut i: usize = begin;
    while i < end
        invariant
            begin <= i <= end <= len,
            len == text@.len(),
            start <= end,
            t == text@.subrange(begin as int, end as int),
            t == unsigned_part(text@.subrange(start as int, end as int)),
            acc == digits_value(t.subrange(0, i - begin)),
            all_digits(t.subrange(0, i - begin)),
            acc <= max,
        decreases end - i,
    {
        let b = text[i];
        assert(t[i - begin] == b);
        if b < 48 || b > 57 {
            return None;
        }
        let d = (b - 48) as u64;
        let ghost upto = t.subrange(0, i - begin + 1);
        assert(upto.drop_last() =~= t.subrange(0, i - begin));
        assert(upto.last() == b);
        assert(digits_value(upto) == acc * 10 + d);
        if d > max || acc > (max - d) / 10 {
            proof {
                lemma_digits_prefix(t, i - begin + 1);
            }
            return None;
        }
        acc = acc * 10 + d;
        i += 1;
        assert forall|k: int| 0 <= k < upto.len() implies 48 <= #[trigger] upto[k] <= 57 by {
            if k < upto.len() - 1 {
                assert(t.subrange(0, i - 1 - begin)[k] == upto[k]);
            }
        }
    }
    assert(t.subrange(0, end - begin) =~= t);
    Some(acc)
}

/// Reads the configuration of the process of rank `self_rank` from `text`.
/// `None` where `text` is no configuration.
pub fn parse_configuration(text: &[u8], self_rank: u8) -> (r: Option<Configuration>)
    ensures
        r is Some <==> config_ok(text@),
        r matches Some(c) ==> configured(c, text@, self_rank),
{
    let len = text.len();
    let ghost s = text@;
    let ghost lines = lines_of(s);
    if len == 0 {
        return None;
    }
    let (e0, n0) = next_line(text, 0);
    let ghost a0 = s.subrange(0, e0 as int);
    if e0 != 64 || n0 >= len {
        return None;
    }
    let (e1, n1) = next_line(text, n0);
    let ghost a1 = s.subrange(n0 as int, e1 as int);
    if e1 - n0 != 32 || n1 >= len {
        return None;
    }
    let (e2, n2) = next_line(text, n1);
    let ghost a2 = s.subrange(n1 as int, e2 as int);
    let ghost mut done = seq![a0, a1, a2];
    assert(done + lines_from(s, n2 as int) =~= lines);
    let n_sectors = match parse_decimal(text, n1, e2, u64::MAX) {
        Some(v) => v,
        None => {
            return None;
        },
    };
    let hmac_system_key = copy_range(text, 0, e0);
    let hmac_client_key = copy_range(text, n0, e1);
    let mut tcp_locations: Vec<(Vec<u8>, u16)> = Vec::new();
    let mut pos: usize = n2;
    while pos < len
        invariant
            pos <= len,
            hmac_system_key@ == a0 && a0.len() == 64,
            hmac_client_key@ == a1 && a1.len() == 32,
            is_decimal(a2, u64::MAX as nat) && n_sectors == decimal_value(a2),
            len == text@.len(),
            s == text@,
            lines == lines_of(s),
            done + lines_from(s, pos as int) == lines,
            done.len() == 3 + 2 * tcp_locations@.len(),
            done[0] == a0 && done[1] == a1 && done[2] == a2,
            forall|i: int|
                0 <= i < tcp_locations@.len() ==> is_decimal(#[trigger] port_line(lines, i), 65535),
            forall|i: int|
                0 <= i < tcp_locations@.len() ==> (#[trigger] tcp_locations@[i]).0@ == host_line(
                    lines,
                    i,
                ) && tcp_locations@[i].1 == decimal_value(port_line(lines, i)),
        decreases len - pos,
    {
        let ghost m = tcp_locations@.len() as int;
        let (he, hn) = next_line(text, pos);
        let ghost host = s.subrange(pos as int, he as int);
        if hn >= len {
            assert(done.push(host) =~= lines);
            return None;
        }
        let (pe, pn) = next_line(text, hn);
        let ghost port = s.subrange(hn as int, pe as int);
        proof {
            assert(done.push(host).push(port) + lines_from(s, pn as int) =~= lines);
            assert(host_line(lines, m) == host);
            assert(port_line(lines, m) == port);
        }
        let number = match parse_decimal(text, hn, pe, 65535) {
            Some(v) => v,
            None => {
                return None;
            },
        };
        let name = copy_range(text, pos, he);
        tcp_locations.push((name, number as u16));
        proof {
            done = done.push(host).push(port);
        }
        pos = pn;
    }
    assert(done =~= lines);
    Some(Configuration { hmac_system_key, hmac_client_key, tcp_locations, self_rank, n_sectors })
}

} // verus!
