//! Big-endian integers as byte strings.

use vstd::prelude::*;

verus! {

/// The eight bytes of `x`, most significant first.
#[verifier::opaque]
pub open spec fn u64_be(x: u64) -> Seq<u8> {
    seq![
        ((x >> 56) & 0xff) as u8,
        ((x >> 48) & 0xff) as u8,
        ((x >> 40) & 0xff) as u8,
        ((x >> 32) & 0xff) as u8,
        ((x >> 24) & 0xff) as u8,
        ((x >> 16) & 0xff) as u8,
        ((x >> 8) & 0xff) as u8,
        (x & 0xff) as u8,
    ]
}

/// The integer whose big-endian bytes are the first eight of `b`.
#[verifier::opaque]
pub open spec fn u64_of_be(b: Seq<u8>) -> u64 {
    ((b[0] as u64) << 56) | ((b[1] as u64) << 48) | ((b[2] as u64) << 40) | ((b[3] as u64) << 32)
        | ((b[4] as u64) << 24) | ((b[5] as u64) << 16) | ((b[6] as u64) << 8) | (b[7] as u64)
}

/// The sixteen bytes of `x`, most significant first.
#[verifier::opaque]
pub open spec fn u128_be(x: u128) -> Seq<u8> {
    u64_be((x >> 64) as u64) + u64_be((x & 0xffff_ffff_ffff_ffff) as u64)
}

/// The integer whose big-endian bytes are the first sixteen of `b`.
#[verifier::opaque]
pub open spec fn u128_of_be(b: Seq<u8>) -> u128 {
    ((u64_of_be(b.subrange(0, 8)) as u128) << 64) | (u64_of_be(b.subrange(8, 16)) as u128)
}

/// Reading back the bytes of a 64-bit integer gives the integer.
pub proof fn lemma_u64_round_trip(x: u64)
    ensures
        u64_be(x).len() == 8,
        u64_of_be(u64_be(x)) == x,
{
    reveal(u64_be);
    reveal(u64_of_be);
    assert(((((x >> 56) & 0xff) as u8 as u64) << 56) | ((((x >> 48) & 0xff) as u8 as u64) << 48)
        | ((((x >> 40) & 0xff) as u8 as u64) << 40) | ((((x >> 32) & 0xff) as u8 as u64) << 32)
        | ((((x >> 24) & 0xff) as u8 as u64) << 24) | ((((x >> 16) & 0xff) as u8 as u64) << 16)
        | ((((x >> 8) & 0xff) as u8 as u64) << 8) | ((x & 0xff) as u8 as u64) == x)
        by (bit_vector);
}

/// Reading back the bytes of a 128-bit integer gives the integer.
pub proof fn lemma_u128_round_trip(x: u128)
    ensures
        u128_be(x).len() == 16,
        u128_of_be(u128_be(x)) == x,
{
    reveal(u128_be);
    reveal(u128_of_be);
    let hi = (x >> 64) as u64;
    let lo = (x & 0xffff_ffff_ffff_ffff) as u64;
    lemma_u64_round_trip(hi);
    lemma_u64_round_trip(lo);
    let b = u128_be(x);
    assert(b.subrange(0, 8) =~= u64_be(hi));
    assert(b.subrange(8, 16) =~= u64_be(lo));
    assert((((x >> 64) as u64 as u128) << 64) | ((x & 0xffff_ffff_ffff_ffff) as u64 as u128) == x)
        by (bit_vector);
}

/// Appends the big-endian bytes of `x` to `sink`.
pub fn push_u64(sink: &mut Vec<u8>, x: u64)
    ensures
        final(sink)@ == old(sink)@ + u64_be(x),
        u64_be(x).len() == 8,
{
    reveal(u64_be);
    let ghost before = sink@;
    assert((x >> 56) & 0xff < 256 && (x >> 48) & 0xff < 256 && (x >> 40) & 0xff < 256 && (x >> 32)
        & 0xff < 256 && (x >> 24) & 0xff < 256 && (x >> 16) & 0xff < 256 && (x >> 8) & 0xff < 256
        && x & 0xff < 256) by (bit_vector);
    sink.push(((x >> 56) & 0xff) as u8);
    sink.push(((x >> 48) & 0xff) as u8);
    sink.push(((x >> 40) & 0xff) as u8);
    sink.push(((x >> 32) & 0xff) as u8);
    sink.push(((x >> 24) & 0xff) as u8);
    sink.push(((x >> 16) & 0xff) as u8);
    sink.push(((x >> 8) & 0xff) as u8);
    sink.push((x & 0xff) as u8);
    assert(sink@ =~= before + u64_be(x));
}

/// Appends the big-endian bytes of `x` to `sink`.
pub fn push_u128(sink: &mut Vec<u8>, x: u128)
    ensures
        final(sink)@ == old(sink)@ + u128_be(x),
{
    reveal(u128_be);
    let ghost before = sink@;
    assert(x >> 64 <= 0xffff_ffff_ffff_ffff && x & 0xffff_ffff_ffff_ffff <= 0xffff_ffff_ffff_ffff)
        by (bit_vector);
    push_u64(sink, (x >> 64) as u64);
    push_u64(sink, (x & 0xffff_ffff_ffff_ffff) as u64);
    assert(sink@ =~= before + u128_be(x));
}

/// Reads the big-endian 64-bit integer that starts at `at`.
pub fn read_u64(buf: &[u8], at: usize) -> (x: u64)
    requires
        at + 8 <= buf@.len(),
    ensures
        x == u64_of_be(buf@.subrange(at as int, at + 8)),
{
    reveal(u64_of_be);
    ((buf[at] as u64) << 56) | ((buf[at + 1] as u64) << 48) | ((buf[at + 2] as u64) << 40) | ((
    buf[at + 3] as u64) << 32) | ((buf[at + 4] as u64) << 24) | ((buf[at + 5] as u64) << 16) | ((
    buf[at + 6] as u64) << 8) | (buf[at + 7] as u64)
}

/// Reads the big-endian 128-bit integer that starts at `at`.
pub fn read_u128(buf: &[u8], at: usize) -> (x: u128)
    requires
        at + 16 <= buf@.len(),
    ensures
        x == u128_of_be(buf@.subrange(at as int, at + 16)),
{
    reveal(u128_of_be);
    let len = buf.len();
    let hi = read_u64(buf, at);
    let lo = read_u64(buf, at + 8);
    proof {
        let b = buf@.subrange(at as int, at + 16);
        assert(b.subrange(0, 8) =~= buf@.subrange(at as int, at + 8));
        assert(b.subrange(8, 16) =~= buf@.subrange(at + 8, at + 16));
    }
    ((hi as u128) << 64) | (lo as u128)
}

/// Appends `src` to `sink`.
pub fn push_bytes(sink: &mut Vec<u8>, src: &[u8])
    ensures
        final(sink)@ == old(sink)@ + src@,
{
    let ghost before = sink@;
    let mut i: usize = 0;
    while i < src.len()
        invariant
            i <= src@.len(),
            sink@ == before + src@.subrange(0, i as int),
        decreases src@.len() - i,
    {
        sink.push(src[i]);
        i += 1;
        assert(sink@ =~= before + src@.subrange(0, i as int));
    }
    assert(src@.subrange(0, i as int) =~= src@);
}

/// A fresh vector holding `buf[from..to]`.
pub fn copy_range(buf: &[u8], from: usize, to: usize) -> (out: Vec<u8>)
    requires
        from <= to <= buf@.len(),
    ensures
        out@ == buf@.subrange(from as int, to as int),
{
    let mut out: Vec<u8> = Vec::new();
    let mut i: usize = from;
    while i < to
        invariant
            from <= i <= to <= buf@.len(),
            out@ == buf@.subrange(from as int, i as int),
        decreases to - i,
    {
        out.push(buf[i]);
        i += 1;
        assert(out@ =~= buf@.subrange(from as int, i as int));
    }
    out
}

/// Whether `a[from..from + b.len()]` equals `b`.
pub fn range_equals(a: &[u8], from: usize, b: &[u8]) -> (same: bool)
    requires
        from + b@.len() <= a@.len(),
    ensures
        same == (a@.subrange(from as int, from + b@.len()) == b@),
{
    let len = a.len();
    let mut i: usize = 0;
    while i < b.len()
        invariant
            i <= b@.len(),
            from + b@.len() <= a@.len(),
            a@.len() == len,
            a@.subrange(from as int, from + i) == b@.subrange(0, i as int),
        decreases b@.len() - i,
    {
        if a[from + i] != b[i] {
            proof {
                let full = a@.subrange(from as int, from + b@.len());
                assert(full[i as int] != b@[i as int]);
            }
            return false;
        }
        i += 1;
        assert(a@.subrange(from as int, from + i) =~= b@.subrange(0, i as int)) by {
            let l = a@.subrange(from as int, from + i);
            let r = b@.subrange(0, i as int);
            assert forall|k: int| 0 <= k < l.len() implies l[k] == r[k] by {
                if k < i - 1 {
                    assert(a@.subrange(from as int, from + i - 1)[k] == b@.subrange(0, i - 1)[k]);
                }
            }
        }
    }
    assert(b@.subrange(0, i as int) =~= b@);
    true
}

} // verus!
