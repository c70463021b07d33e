//! Big-endian integers, the byte order of every multi-byte field on the wire.
use vstd::prelude::*;

verus! {

/// The two bytes of `x`, most significant first.
pub open spec fn be16(x: u16) -> Seq<u8> {
    seq![(x / 0x100) as u8, (x % 0x100) as u8]
}

/// The four bytes of `x`, most significant first.
pub open spec fn be32(x: u32) -> Seq<u8> {
    seq![
        (x / 0x100_0000) as u8,
        (x / 0x1_0000 % 0x100) as u8,
        (x / 0x100 % 0x100) as u8,
        (x % 0x100) as u8,
    ]
}

/// The eight bytes of `x`, most significant first.
pub open spec fn be64(x: u64) -> Seq<u8> {
    be32((x / 0x1_0000_0000) as u32) + be32((x % 0x1_0000_0000) as u32)
}

/// The integer whose big-endian bytes are the first two of `b`.
pub open spec fn from_be16(b: Seq<u8>) -> u16
    recommends
        b.len() >= 2,
{
    (b[0] as int * 0x100 + b[1] as int) as u16
}

/// The integer whose big-endian bytes are the first four of `b`.
pub open spec fn from_be32(b: Seq<u8>) -> u32
    recommends
        b.len() >= 4,
{
    (b[0] as int * 0x100_0000 + b[1] as int * 0x1_0000 + b[2] as int * 0x100 + b[3] as int) as u32
}

/// The integer whose big-endian bytes are the first eight of `b`.
pub open spec fn from_be64(b: Seq<u8>) -> u64
    recommends
        b.len() >= 8,
{
    (from_be32(b) as int * 0x1_0000_0000 + from_be32(b.subrange(4, 8)) as int) as u64
}

/// Decoding undoes encoding, for a two-byte field.
pub proof fn lemma_be16_decode_encode(x: u16)
    ensures
        be16(x).len() == 2,
        from_be16(be16(x)) == x,
{
}

/// Decoding undoes encoding, for a four-byte field.
pub proof fn lemma_be32_decode_encode(x: u32)
    ensures
        be32(x).len() == 4,
        from_be32(be32(x)) == x,
{
    let b0 = x as int / 0x100_0000;
    let b1 = x as int / 0x1_0000 % 0x100;
    let b2 = x as int / 0x100 % 0x100;
    let b3 = x as int % 0x100;
    assert(x as int / 0x100 == (x as int / 0x1_0000) * 0x100 + b2);
    assert(x as int / 0x1_0000 == b0 * 0x100 + b1);
    assert(x as int == (x as int / 0x100) * 0x100 + b3);
    assert(be32(x)[0] == b0 as u8);
    assert(be32(x)[1] == b1 as u8);
    assert(be32(x)[2] == b2 as u8);
    assert(be32(x)[3] == b3 as u8);
    assert(x as int == b0 * 0x100_0000 + b1 * 0x1_0000 + b2 * 0x100 + b3);
}

/// Decoding undoes encoding, for an eight-byte field.
pub proof fn lemma_be64_decode_encode(x: u64)
    ensures
        be64(x).len() == 8,
        from_be64(be64(x)) == x,
{
    let hi = (x / 0x1_0000_0000) as u32;
    let lo = (x % 0x1_0000_0000) as u32;
    lemma_be32_decode_encode(hi);
    lemma_be32_decode_encode(lo);
    assert(be64(x).subrange(4, 8) =~= be32(lo));
    assert(be64(x)[0] == be32(hi)[0]);
    assert(be64(x)[1] == be32(hi)[1]);
    assert(be64(x)[2] == be32(hi)[2]);
    assert(be64(x)[3] == be32(hi)[3]);
    assert(from_be32(be64(x)) == from_be32(be32(hi)));
}

/// Encoding undoes decoding: a two-byte field read from the wire and written back
/// gives the bytes that were read.
pub proof fn lemma_be16_encode_decode(b: Seq<u8>)
    requires
        b.len() == 2,
    ensures
        be16(from_be16(b)) == b,
{
    assert(be16(from_be16(b)) =~= b);
}

/// Encoding undoes decoding, for a four-byte field.
pub proof fn lemma_be32_encode_decode(b: Seq<u8>)
    requires
        b.len() == 4,
    ensures
        be32(from_be32(b)) == b,
{
    let b0 = b[0] as int;
    let b1 = b[1] as int;
    let b2 = b[2] as int;
    let b3 = b[3] as int;
    let x = b0 * 0x100_0000 + b1 * 0x1_0000 + b2 * 0x100 + b3;
    assert(from_be32(b) == x);
    assert(x / 0x100_0000 == b0);
    assert(x / 0x1_0000 == b0 * 0x100 + b1);
    assert(x / 0x100 == b0 * 0x1_0000 + b1 * 0x100 + b2);
    assert(be32(from_be32(b)) =~= b);
}

/// Encoding undoes decoding, for an eight-byte field.
pub proof fn lemma_be64_encode_decode(b: Seq<u8>)
    requires
        b.len() == 8,
    ensures
        be64(from_be64(b)) == b,
{
    let hi = b.subrange(0, 4);
    let lo = b.subrange(4, 8);
    assert(from_be32(b) == from_be32(hi));
    lemma_be32_encode_decode(hi);
    lemma_be32_encode_decode(lo);
    let x = from_be32(hi) as int * 0x1_0000_0000 + from_be32(lo) as int;
    assert(from_be64(b) == x);
    assert(x / 0x1_0000_0000 == from_be32(hi));
    assert(x % 0x1_0000_0000 == from_be32(lo));
    assert(be64(from_be64(b)) =~= hi + lo);
    assert(hi + lo =~= b);
}

/// Appends the big-endian bytes of `x` to `out`.
pub fn put_be16(out: &mut Vec<u8>, x: u16)
    ensures
        final(out)@ == old(out)@ + be16(x),
{
    out.push((x / 0x100) as u8);
    out.push((x % 0x100) as u8);
    assert(out@ =~= old(out)@ + be16(x));
}

/// Appends the big-endian bytes of `x` to `out`.
pub fn put_be32(out: &mut Vec<u8>, x: u32)
    ensures
        final(out)@ == old(out)@ + be32(x),
{
    out.push((x / 0x100_0000) as u8);
    out.push((x / 0x1_0000 % 0x100) as u8);
    out.push((x / 0x100 % 0x100) as u8);
    out.push((x % 0x100) as u8);
    assert(out@ =~= old(out)@ + be32(x));
}

/// Appends the big-endian bytes of `x` to `out`.
pub fn put_be64(out: &mut Vec<u8>, x: u64)
    ensures
        final(out)@ == old(out)@ + be64(x),
{
    let ghost before = out@;
    put_be32(out, (x / 0x1_0000_0000) as u32);
    put_be32(out, (x % 0x1_0000_0000) as u32);
    assert(out@ =~= before + be64(x));
}

/// Reads the big-endian `u16` at `at`.
pub fn get_be16(data: &[u8], at: usize) -> (x: u16)
    requires
        at + 2 <= data@.len(),
    ensures
        x == from_be16(data@.subrange(at as int, at + 2)),
{
    let b0: u16 = data[at] as u16;
    let b1: u16 = data[at + 1] as u16;
    b0 * 0x100 + b1
}

/// Reads the big-endian `u32` at `at`.
pub fn get_be32(data: &[u8], at: usize) -> (x: u32)
    requires
        at + 4 <= data@.len(),
    ensures
        x == from_be32(data@.subrange(at as int, at + 4)),
{
    let b0: u32 = data[at] as u32;
    let b1: u32 = data[at + 1] as u32;
    let b2: u32 = data[at + 2] as u32;
    let b3: u32 = data[at + 3] as u32;
    b0 * 0x100_0000 + b1 * 0x1_0000 + b2 * 0x100 + b3
}

/// Reads the big-endian `u64` at `at`.
pub fn get_be64(data: &[u8], at: usize) -> (x: u64)
    requires
        at + 8 <= data@.len(),
    ensures
        x == from_be64(data@.subrange(at as int, at + 8)),
{
    let n: usize = data.len();
    let hi: u64 = get_be32(data, at) as u64;
    let lo: u64 = get_be32(data, at + 4) as u64;
    proof {
        let b = data@.subrange(at as int, at + 8);
        assert(b.subrange(4, 8) =~= data@.subrange(at + 4, at + 8));
        assert(from_be32(b) == from_be32(data@.subrange(at as int, at + 4)));
    }
    hi * 0x1_0000_0000 + lo
}

} // verus!
